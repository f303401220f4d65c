//! What the tools that read and edit the world do, said with coordinates and blocks.

use vstd::prelude::*;
use crate::block::{column_of, BlockPos, BlockState};
use crate::build_plan::{cell_number, every_place_is_a_cell, first_cell};
use crate::build_service::{
    anchor_from, blocks_of, layer_anchors_are_blocks_at_a_face, next_to,
};
use crate::chunk_rules::{columns_hold_their_blocks, in_column};
use crate::chunks::LifecycleView;
use crate::json::{first_member, member, signed_of_value, JsonView};
use crate::layer::WorldView;
use crate::mcp::{block_argument, block_json_view, block_name, Region};
use crate::persistence::{BlockEdit, PersistedCommandKind};
use crate::registry::block_of_item;
use crate::server::{
    beside, clicked_block, clicking, edited_view, fill_command, filled, is_placement, is_player_edit, is_position,
    is_tool_edit, marked_region, placing, region_box, region_cell, region_volume, removing, snapshot_blocks,
    tool_error_of, Face, PlacementClick, PlayerEdit, ToolAnswer,
};
use crate::text_rules::stands_between;
use crate::world_command::{
    base_block, in_palette, placement_is_allowed_exactly_when, removal_is_allowed_exactly_when,
    WorldBounds, WorldCommand,
};
use crate::written_rules::writes;

verus! {

// ---- members ----

/// True iff the object has that integer under that key.
pub open spec fn has_integer(value: JsonView, key: Seq<char>, n: int) -> bool {
    member(value, key) matches Some(number) && signed_of_value(number) == Some(n)
}

/// True iff the object has that text under that key.
pub open spec fn has_text(value: JsonView, key: Seq<char>, text: Seq<char>) -> bool {
    member(value, key) == Some(JsonView::Text(text))
}

/// True iff the answer is about the block at that place.
pub open spec fn is_about(value: JsonView, x: int, y: int, z: int) -> bool {
    has_integer(value, "x"@, x) && has_integer(value, "y"@, y) && has_integer(value, "z"@, z)
}

/// True iff the answer says that the block is that one.
pub open spec fn shows_block(value: JsonView, block: BlockState) -> bool {
    has_text(value, "block"@, block_name(block)) && has_integer(
        value,
        "block_state_raw"@,
        block as int,
    )
}

/// What is answered of a block is its place, its name and its number, each under its own key.
pub proof fn block_answer_shows_the_block(position: BlockPos, block: BlockState)
    ensures
        is_about(
            block_json_view(position, block),
            position.x as int,
            position.y as int,
            position.z as int,
        ),
        shows_block(block_json_view(position, block), block),
        block_json_view(position, block) is Object,
{
    let value = block_json_view(position, block);
    let members = value->Object_0;
    reveal_strlit("block");
    reveal_strlit("block_state_raw");
    reveal_strlit("x");
    reveal_strlit("y");
    reveal_strlit("z");
    assert("block"@.len() == 5 && "block_state_raw"@.len() == 15 && "x"@.len() == 1 && "y"@.len()
        == 1 && "z"@.len() == 1);
    assert("x"@[0] == 'x' && "y"@[0] == 'y' && "z"@[0] == 'z');
    first_member(members, "block"@, 0);
    first_member(members, "block_state_raw"@, 1);
    first_member(members, "x"@, 2);
    first_member(members, "y"@, 3);
    first_member(members, "z"@, 4);
}

// ---- regions ----

/// True iff the position lies in the region.
pub open spec fn lies_in(p: BlockPos, region: Region) -> bool {
    region.min.x <= p.x <= region.max.x && region.min.y <= p.y <= region.max.y && region.min.z
        <= p.z <= region.max.z
}

/// True iff the `k`-th position that the region lists is that one.
pub open spec fn is_listed_at(region: Region, reverse_y: bool, k: int, p: BlockPos) -> bool {
    0 <= k < (region.max.x - region.min.x + 1) * (region.max.y - region.min.y + 1) * (region.max.z
        - region.min.z + 1) && region_cell(region, reverse_y, k) == p
}

/// A region lists every position that lies in it, and each of them once.
pub proof fn positions_are_listed_once(region: Region, reverse_y: bool, p: BlockPos)
    requires
        region.is_ordered(),
    ensures
        lies_in(p, region) <==> exists|k: int| is_listed_at(region, reverse_y, k, p),
        forall|k: int, j: int|
            is_listed_at(region, reverse_y, k, p) && is_listed_at(region, reverse_y, j, p) ==> k
                == j,
{
    let b = region_box(region);
    region_volume(region);
    if lies_in(p, region) {
        let y = if reverse_y {
            region.max.y - (p.y - region.min.y)
        } else {
            p.y as int
        };
        let k = every_place_is_a_cell(b, (p.x as int, y, p.z as int));
        assert(is_listed_at(region, reverse_y, k, p));
    }
    assert forall|k: int| is_listed_at(region, reverse_y, k, p) implies lies_in(p, region) by {
        cell_number(b, k);
    }
    assert forall|k: int, j: int|
        is_listed_at(region, reverse_y, k, p) && is_listed_at(
            region,
            reverse_y,
            j,
            p,
        ) implies k == j by {
        cell_number(b, k);
        cell_number(b, j);
        assert(b.cell(k) == b.cell(j));
    }
}

/// A region is listed level by level: from below upwards, or from above downwards where that is
/// asked for.
pub proof fn levels_are_listed_in_order(region: Region, reverse_y: bool, k: int, j: int)
    requires
        region.is_ordered(),
        0 <= k <= j < region.spec_volume(),
    ensures
        reverse_y ==> region_cell(region, reverse_y, k).y >= region_cell(region, reverse_y, j).y,
        !reverse_y ==> region_cell(region, reverse_y, k).y <= region_cell(region, reverse_y, j).y,
{
    let b = region_box(region);
    region_volume(region);
    cell_number(b, k);
    cell_number(b, j);
    vstd::arithmetic::div_mod::lemma_div_is_ordered(k, j, b.dz());
    vstd::arithmetic::div_mod::lemma_div_is_ordered(k / b.dz(), j / b.dz(), b.dx());
}

// ---- snapshots ----

proof fn snapshot_entries(w: WorldView, region: Region, n: int)
    requires
        0 <= n,
    ensures
        snapshot_blocks(w, region, n).len() == n,
        forall|k: int|
            0 <= k < n ==> #[trigger] snapshot_blocks(w, region, n)[k] == block_json_view(
                region_cell(region, false, k),
                w.block(region_cell(region, false, k).coords()),
            ),
    decreases n,
{
    if n > 0 {
        snapshot_entries(w, region, n - 1);
    }
}

spec fn shows_its_cell(w: WorldView, region: Region, entry: JsonView, k: int) -> bool {
    let c = region_cell(region, false, k);
    lies_in(c, region) && is_about(entry, c.x as int, c.y as int, c.z as int) && shows_block(
        entry,
        w.block(c.coords()),
    )
}

/// True iff the `k`-th entry is about the block at that place.
pub open spec fn entry_is_about(entries: Seq<JsonView>, k: int, x: int, y: int, z: int) -> bool {
    0 <= k < entries.len() && is_about(entries[k], x, y, z)
}

/// True iff the entry is about a position of the region.
pub open spec fn is_of_region(entry: JsonView, region: Region) -> bool {
    exists|p: BlockPos| #[trigger]
        lies_in(p, region) && is_about(entry, p.x as int, p.y as int, p.z as int)
}

/// True iff the entries show the blocks of the region: there are as many as positions, each is about
/// a position of the region, and every position of the region has exactly one, which shows the
/// world's block there.
pub open spec fn shows_region(entries: Seq<JsonView>, w: WorldView, region: Region) -> bool {
    &&& entries.len() == (region.max.x - region.min.x + 1) * (region.max.y - region.min.y + 1) * (
    region.max.z - region.min.z + 1)
    &&& forall|k: int| 0 <= k < entries.len() ==> is_of_region(#[trigger] entries[k], region)
    &&& forall|p: BlockPos| #[trigger]
        lies_in(p, region) ==> exists|k: int|
            entry_is_about(entries, k, p.x as int, p.y as int, p.z as int)
    &&& forall|k: int, x: int, y: int, z: int| #[trigger]
        entry_is_about(entries, k, x, y, z) ==> shows_block(entries[k], w.block((x, y, z)))
    &&& forall|k: int, j: int, x: int, y: int, z: int| #[trigger]
        entry_is_about(entries, k, x, y, z) && #[trigger] entry_is_about(entries, j, x, y, z) ==> k
            == j
}

/// A snapshot shows every block of its region once, each at its own position.
pub proof fn snapshot_shows_every_block_once(w: WorldView, region: Region)
    requires
        region.is_ordered(),
        region.spec_volume() <= i64::MAX,
    ensures
        shows_region(snapshot_blocks(w, region, region.spec_volume()), w, region),
{
    let n = region.spec_volume();
    region_volume(region);
    let b = region_box(region);
    assert(0 <= b.dz() * (b.dx() * b.dy())) by (nonlinear_arith)
        requires
            0 < b.dx(),
            0 < b.dy(),
            0 < b.dz(),
    ;
    snapshot_entries(w, region, n);
    let entries = snapshot_blocks(w, region, n);
    assert forall|k: int| 0 <= k < n implies shows_its_cell(w, region, #[trigger] entries[k], k) by {
        let c = region_cell(region, false, k);
        block_answer_shows_the_block(c, w.block(c.coords()));
        positions_are_listed_once(region, false, c);
        assert(is_listed_at(region, false, k, c));
    }
    assert forall|p: BlockPos| #[trigger] lies_in(p, region) implies exists|k: int|
        entry_is_about(entries, k, p.x as int, p.y as int, p.z as int) by {
        positions_are_listed_once(region, false, p);
        let k = choose|k: int| is_listed_at(region, false, k, p);
        assert(entry_is_about(entries, k, p.x as int, p.y as int, p.z as int));
    }
    assert forall|k: int, x: int, y: int, z: int| #[trigger]
        entry_is_about(entries, k, x, y, z) implies shows_block(entries[k], w.block((x, y, z))) by {
        let c = region_cell(region, false, k);
        assert(shows_its_cell(w, region, entries[k], k));
        assert(c.coords() == (x, y, z));
    }
    assert forall|k: int, j: int, x: int, y: int, z: int| #[trigger]
        entry_is_about(entries, k, x, y, z) && #[trigger] entry_is_about(
            entries,
            j,
            x,
            y,
            z,
        ) implies k == j by {
        let c = region_cell(region, false, k);
        let d = region_cell(region, false, j);
        assert(shows_its_cell(w, region, entries[k], k));
        assert(shows_its_cell(w, region, entries[j], j));
        assert(c == d);
        positions_are_listed_once(region, false, c);
        assert(is_listed_at(region, false, k, c) && is_listed_at(region, false, j, c));
    }
    assert forall|k: int| 0 <= k < entries.len() implies is_of_region(
        #[trigger] entries[k],
        region,
    ) by {
        assert(shows_its_cell(w, region, entries[k], k));
        assert(lies_in(region_cell(region, false, k), region));
    }
}

// ---- single edits ----

/// True iff a tool may place the block there: inside the bounds and outside the spawn space, in a
/// loaded chunk where there is air, beside a block; and the block is in the palette and not the
/// diamond block.
pub open spec fn may_place(w: WorldView, bounds: WorldBounds, p: BlockPos, block: BlockState) -> bool {
    &&& bounds.min_x <= p.x <= bounds.max_x
    &&& bounds.min_y <= p.y <= bounds.max_y
    &&& bounds.min_z <= p.z <= bounds.max_z
    &&& in_palette(block)
    &&& block != 4276
    &&& p.x < -1 || p.x > 1 || p.z < -1 || p.z > 1 || p.y < 65 || p.y > 66
    &&& w.loaded((p.x as int, p.y as int, p.z as int))
    &&& w.block((p.x as int, p.y as int, p.z as int)) == 0
    &&& exists|q: BlockPos| #[trigger]
        next_to(p, q) && w.block((q.x as int, q.y as int, q.z as int)) != 0
}

/// True iff the block there may be removed: there is one, inside the bounds and above sixty, and it
/// is not bedrock.
pub open spec fn may_remove(w: WorldView, bounds: WorldBounds, p: BlockPos) -> bool {
    &&& bounds.min_x <= p.x <= bounds.max_x
    &&& bounds.min_y <= p.y <= bounds.max_y
    &&& bounds.min_z <= p.z <= bounds.max_z
    &&& p.y > 60
    &&& w.block((p.x as int, p.y as int, p.z as int)) != 0
    &&& w.block((p.x as int, p.y as int, p.z as int)) != 79
}

/// A tool places and removes blocks exactly where it may.
pub proof fn tools_edit_where_they_may(
    w: WorldView,
    bounds: WorldBounds,
    p: BlockPos,
    block: BlockState,
)
    ensures
        tool_error_of(w, bounds, WorldCommand::SetBlock { position: p, block }) is None
            <==> may_place(w, bounds, p, block),
        tool_error_of(w, bounds, WorldCommand::RemoveBlock { position: p }) is None <==> may_remove(
            w,
            bounds,
            p,
        ),
{
    let set = WorldCommand::SetBlock { position: p, block };
    let removal = WorldCommand::RemoveBlock { position: p };
    placement_is_allowed_exactly_when(bounds, p, block, placing(w, p));
    removal_is_allowed_exactly_when(bounds, p, removing(w, p));
    layer_anchors_are_blocks_at_a_face(w, p);
    if exists|q: BlockPos| #[trigger]
        next_to(p, q) && w.block((q.x as int, q.y as int, q.z as int)) != 0 {
        let q = choose|q: BlockPos| #[trigger]
            next_to(p, q) && w.block((q.x as int, q.y as int, q.z as int)) != 0;
        assert(next_to(p, q));
        assert(anchor_from(Map::empty(), blocks_of(w), p, 0) != 0);
    }
}

/// True iff the block at `p` became `block`, and all else stayed.
pub open spec fn changed_one_block(
    before: WorldView,
    after: WorldView,
    p: BlockPos,
    block: BlockState,
) -> bool {
    &&& forall|q: (int, int, int)| #[trigger] after.loaded(q) == before.loaded(q)
    &&& forall|q: (int, int, int)| #[trigger]
        after.block(q) == if q == (p.x as int, p.y as int, p.z as int) {
            block
        } else {
            before.block(q)
        }
}

/// The tool that places a block does so exactly where the arguments name one that may stand there:
/// then that block alone changes, one edit is to be saved, and the answer shows the new block. In
/// every other case the tool is refused, and nothing changes.
pub proof fn placement_tool_places_one_block(
    before: WorldView,
    after: WorldView,
    marks_before: LifecycleView,
    marks_after: LifecycleView,
    bounds: WorldBounds,
    p: BlockPos,
    arguments: JsonView,
    r: ToolAnswer,
)
    requires
        is_placement(before, after, marks_before, marks_after, bounds, p, arguments, r),
    ensures
        r.answer is Ok <==> (block_argument(arguments) matches Ok(block) && block != 0 && may_place(
            before,
            bounds,
            p,
            block,
        )),
        r.answer is Err ==> after == before && marks_after == marks_before && r.edits@.len() == 0,
        r.answer matches Ok(answer) ==> {
            let block = block_argument(arguments)->Ok_0;
            &&& changed_one_block(before, after, p, block)
            &&& r.edits@.len() == 1
            &&& r.edits@[0].position == p
            &&& r.edits@[0].block == block
            &&& r.edits@[0].base_block == base_block((p.x as int, p.y as int, p.z as int))
            &&& r.edits@[0].command_kind == PersistedCommandKind::SetBlock
            &&& is_edited_answer(answer@, p, block)
            &&& marks_after.dirty_chunks_marked == marks_before.dirty_chunks_marked.wrapping_add(1)
        },
{
    if let Ok(block) = block_argument(arguments) {
        tools_edit_where_they_may(before, bounds, p, block);
        if r.answer is Ok {
            edited_answer_shows_the_block(p, after.block(p.coords()));
        }
    }
}

/// The tool that removes a block does so exactly where it may: then air alone comes in its place,
/// one edit is to be saved, and the answer shows air. Else the tool is refused, and nothing changes.
pub proof fn removal_tool_removes_one_block(
    before: WorldView,
    after: WorldView,
    marks_before: LifecycleView,
    marks_after: LifecycleView,
    bounds: WorldBounds,
    p: BlockPos,
    r: ToolAnswer,
)
    requires
        is_tool_edit(
            before,
            after,
            marks_before,
            marks_after,
            bounds,
            WorldCommand::RemoveBlock { position: p },
            r,
        ),
    ensures
        r.answer is Ok <==> may_remove(before, bounds, p),
        r.answer is Err ==> after == before && marks_after == marks_before && r.edits@.len() == 0,
        r.answer matches Ok(answer) ==> {
            &&& changed_one_block(before, after, p, 0)
            &&& r.edits@.len() == 1
            &&& r.edits@[0].position == p
            &&& r.edits@[0].block == 0
            &&& r.edits@[0].base_block == base_block((p.x as int, p.y as int, p.z as int))
            &&& r.edits@[0].command_kind == PersistedCommandKind::RemoveBlock
            &&& is_edited_answer(answer@, p, 0)
            &&& marks_after.dirty_chunks_marked == marks_before.dirty_chunks_marked.wrapping_add(1)
        },
{
    tools_edit_where_they_may(before, bounds, p, 0);
    edited_answer_shows_the_block(p, after.block(p.coords()));
}

/// True iff the answer says that one block was edited, and shows it.
pub open spec fn is_edited_answer(value: JsonView, p: BlockPos, block: BlockState) -> bool {
    &&& has_integer(value, "edited"@, 1)
    &&& member(value, "block"@) matches Some(shown) && is_about(
        shown,
        p.x as int,
        p.y as int,
        p.z as int,
    ) && shows_block(shown, block)
}

proof fn edited_answer_shows_the_block(p: BlockPos, block: BlockState)
    ensures
        is_edited_answer(edited_view(block_json_view(p, block)), p, block),
{
    block_answer_shows_the_block(p, block);
    let members = edited_view(block_json_view(p, block))->Object_0;
    reveal_strlit("block");
    reveal_strlit("edited");
    assert("block"@.len() == 5 && "edited"@.len() == 6);
    first_member(members, "block"@, 0);
    first_member(members, "edited"@, 1);
}

// ---- players ----

/// Each face leads one step along its own axis: up and down in y, east and west in x, south and
/// north in z.
pub proof fn faces_lead_one_step(x: int, y: int, z: int)
    ensures
        beside((x, y, z), Face::Up) == (x, y + 1, z),
        beside((x, y, z), Face::Down) == (x, y - 1, z),
        beside((x, y, z), Face::East) == (x + 1, y, z),
        beside((x, y, z), Face::West) == (x - 1, y, z),
        beside((x, y, z), Face::South) == (x, y, z + 1),
        beside((x, y, z), Face::North) == (x, y, z - 1),
{
}

/// A creative player who starts to dig removes the block exactly where it may be removed; any other
/// digging changes nothing.
pub proof fn digging_removes_one_block(
    before: WorldView,
    after: WorldView,
    marks_before: LifecycleView,
    marks_after: LifecycleView,
    bounds: WorldBounds,
    p: BlockPos,
    r: PlayerEdit,
)
    requires
        is_player_edit(
            before,
            after,
            marks_before,
            marks_after,
            bounds,
            WorldCommand::RemoveBlock { position: p },
            removing(before, p),
            "WorldCommand rejected remove_block: "@,
            r,
        ),
    ensures
        r is Edited <==> may_remove(before, bounds, p),
        r is Edited || r is Rejected,
        r is Rejected ==> after == before && marks_after == marks_before,
        r matches PlayerEdit::Edited(edit) ==> {
            &&& changed_one_block(before, after, p, 0)
            &&& edit.position == p
            &&& edit.block == 0
            &&& edit.base_block == base_block((p.x as int, p.y as int, p.z as int))
            &&& edit.command_kind == PersistedCommandKind::RemoveBlock
            &&& marks_after.dirty_chunks_marked == marks_before.dirty_chunks_marked.wrapping_add(1)
        },
{
    tools_edit_where_they_may(before, bounds, p, 0);
}

/// A click places its block at the face that was clicked, exactly where that may be: inside the
/// bounds and outside the spawn space, in a loaded chunk where there is air, against a block, with
/// the player's head free; the block is in the palette and not the diamond block.
pub proof fn clicks_place_one_block(
    before: WorldView,
    after: WorldView,
    marks_before: LifecycleView,
    marks_after: LifecycleView,
    bounds: WorldBounds,
    click: PlacementClick,
    block: BlockState,
    r: PlayerEdit,
)
    requires
        is_position(beside(click.position.coords(), click.face)),
        is_player_edit(
            before,
            after,
            marks_before,
            marks_after,
            bounds,
            WorldCommand::SetBlock { position: click.target(), block },
            clicking(before, click),
            "WorldCommand rejected set_block: "@,
            r,
        ),
    ensures
        ({
            let p = click.target();
            let c = click.position;
            &&& next_to(c, p)
            &&& click.face is Up ==> p.y == c.y + 1
            &&& click.face is Down ==> p.y == c.y - 1
            &&& click.face is East ==> p.x == c.x + 1
            &&& click.face is West ==> p.x == c.x - 1
            &&& click.face is South ==> p.z == c.z + 1
            &&& click.face is North ==> p.z == c.z - 1
            &&& r is Edited || r is Rejected
            &&& r is Rejected ==> after == before && marks_after == marks_before
            &&& r is Edited <==> {
                &&& bounds.min_x <= p.x <= bounds.max_x
                &&& bounds.min_y <= p.y <= bounds.max_y
                &&& bounds.min_z <= p.z <= bounds.max_z
                &&& in_palette(block)
                &&& block != 4276
                &&& p.x < -1 || p.x > 1 || p.z < -1 || p.z > 1 || p.y < 65 || p.y > 66
                &&& !click.head_inside_block
                &&& before.loaded((p.x as int, p.y as int, p.z as int))
                &&& before.block((p.x as int, p.y as int, p.z as int)) == 0
                &&& before.block((c.x as int, c.y as int, c.z as int)) != 0
            }
            &&& r matches PlayerEdit::Edited(edit) ==> {
                &&& changed_one_block(before, after, p, block)
                &&& edit.position == p
                &&& edit.block == block
                &&& edit.base_block == base_block((p.x as int, p.y as int, p.z as int))
                &&& edit.command_kind == PersistedCommandKind::SetBlock
                &&& marks_after.dirty_chunks_marked
                    == marks_before.dirty_chunks_marked.wrapping_add(1)
            }
        }),
{
    placement_is_allowed_exactly_when(bounds, click.target(), block, clicking(before, click));
}

/// Only the main hand of a creative player places anything, and only an item that has a block.
pub proof fn clicks_that_place_nothing(click: PlacementClick)
    ensures
        clicked_block(click) is Some ==> click.main_hand && click.creative && click.item is Some,
        click.main_hand && click.creative && click.item is Some ==> clicked_block(click)
            == block_of_item(click.item->0),
{
}

// ---- fills ----

/// The place of the cell before a cell that is not the first: one step back along z, x or y.
proof fn earlier_cell_beside(region: Region, k: int) -> (j: int)
    requires
        region.is_ordered(),
        0 < k < region.spec_volume(),
    ensures
        0 <= j < k,
        next_to(region_cell(region, false, k), region_cell(region, false, j)),
{
    let b = region_box(region);
    region_volume(region);
    cell_number(b, k);
    let c = b.cell(k);
    let d = if c.2 > b.from.2 {
        (c.0, c.1, c.2 - 1)
    } else if c.0 > b.from.0 {
        (c.0 - 1, c.1, c.2)
    } else {
        (c.0, c.1 - 1, c.2)
    };
    if c == b.from {
        assert(k == 0) by (nonlinear_arith)
            requires
                k == ((c.1 - b.from.1) * b.dx() + (c.0 - b.from.0)) * b.dz() + (c.2 - b.from.2),
                c == b.from,
        ;
    }
    let j = every_place_is_a_cell(b, d);
    cell_number(b, j);
    let dx = b.dx();
    let dz = b.dz();
    if c.2 > b.from.2 {
        assert(j == k - 1);
    } else if c.0 > b.from.0 {
        let r = (c.1 - b.from.1) * dx + (c.0 - b.from.0);
        assert((r - 1) * dz == r * dz - dz) by (nonlinear_arith);
        assert(j == k - dz);
    } else {
        let y = c.1 - b.from.1;
        assert((y - 1) * dx == y * dx - dx) by (nonlinear_arith);
        let r = y * dx + (c.0 - b.from.0);
        assert((r - dx) * dz < r * dz) by (nonlinear_arith)
            requires
                dx > 0,
                dz > 0,
        ;
    }
    j
}

/// True iff the `k`-th position of the region is free for the block, apart from what it leans on.
pub open spec fn is_free(w: WorldView, bounds: WorldBounds, p: BlockPos) -> bool {
    &&& bounds.min_x <= p.x <= bounds.max_x
    &&& bounds.min_y <= p.y <= bounds.max_y
    &&& bounds.min_z <= p.z <= bounds.max_z
    &&& p.x < -1 || p.x > 1 || p.z < -1 || p.z > 1 || p.y < 65 || p.y > 66
    &&& w.loaded((p.x as int, p.y as int, p.z as int))
    &&& w.block((p.x as int, p.y as int, p.z as int)) == 0
}

/// True iff the region can be filled with the block: every position of it is free, its lower corner
/// lies beside a block, and the block is in the palette and not the diamond block.
pub open spec fn can_be_filled(
    w: WorldView,
    bounds: WorldBounds,
    region: Region,
    block: BlockState,
) -> bool {
    &&& in_palette(block)
    &&& block != 4276
    &&& forall|p: BlockPos| #[trigger] lies_in(p, region) ==> is_free(w, bounds, p)
    &&& exists|q: BlockPos| #[trigger]
        next_to(region.min, q) && w.block((q.x as int, q.y as int, q.z as int)) != 0
}

/// True iff the region can be cleared: every position of it is air or may be removed.
pub open spec fn can_be_cleared(w: WorldView, bounds: WorldBounds, region: Region) -> bool {
    forall|p: BlockPos| #[trigger]
        lies_in(p, region) ==> w.block((p.x as int, p.y as int, p.z as int)) == 0 || may_remove(
            w,
            bounds,
            p,
        )
}

/// True iff the position is one of the first `n` that the region lists.
pub open spec fn listed_before(region: Region, reverse_y: bool, n: int, p: BlockPos) -> bool {
    exists|k: int| 0 <= k < n && #[trigger] is_listed_at(region, reverse_y, k, p)
}

proof fn filled_so_far(
    w: WorldView,
    bounds: WorldBounds,
    region: Region,
    block: BlockState,
    n: int,
)
    requires
        region.is_ordered(),
        0 <= n <= region.spec_volume(),
        filled(w, bounds, region, block, n).error is None,
    ensures
        forall|q: (int, int, int)| #[trigger]
            filled(w, bounds, region, block, n).w.loaded(q) == w.loaded(q),
        forall|p: BlockPos|
            #![trigger filled(w, bounds, region, block, n).w.block(p.coords())]
            filled(w, bounds, region, block, n).w.block(p.coords()) == if listed_before(
                region,
                block == 0,
                n,
                p,
            ) {
                block
            } else {
                w.block(p.coords())
            },
        filled(w, bounds, region, block, n).edits.len() + filled(w, bounds, region, block, n).skipped
            == n,
        block != 0 ==> filled(w, bounds, region, block, n).skipped == 0,
    decreases n,
{
    if n > 0 {
        filled_so_far(w, bounds, region, block, n - 1);
        let before = filled(w, bounds, region, block, n - 1);
        let after = filled(w, bounds, region, block, n);
        let reverse_y = block == 0;
        let c = region_cell(region, reverse_y, n - 1);
        tools_edit_where_they_may(before.w, bounds, c, block);
        assert(is_listed_at(region, reverse_y, n - 1, c));
        assert forall|q: (int, int, int)| #[trigger] after.w.loaded(q) == w.loaded(q) by {
            assert(before.w.loaded(q) == w.loaded(q));
        }
        assert forall|p: BlockPos| #![trigger after.w.block(p.coords())] after.w.block(p.coords())
            == if listed_before(region, block == 0, n, p) {
            block
        } else {
            w.block(p.coords())
        } by {
            assert(before.w.block(p.coords()) == if listed_before(region, block == 0, n - 1, p) {
                block
            } else {
                w.block(p.coords())
            });
            if listed_before(region, reverse_y, n - 1, p) {
                let k = choose|k: int|
                    0 <= k < n - 1 && #[trigger] is_listed_at(region, reverse_y, k, p);
                assert(is_listed_at(region, reverse_y, k, p));
                assert(listed_before(region, reverse_y, n, p));
            }
            if p == c {
                assert(listed_before(region, reverse_y, n, p));
            }
        }
    }
}

proof fn fill_goes_on(
    w: WorldView,
    bounds: WorldBounds,
    region: Region,
    block: BlockState,
    n: int,
)
    requires
        region.is_ordered(),
        0 <= n <= region.spec_volume(),
        block != 0,
        can_be_filled(w, bounds, region, block),
    ensures
        filled(w, bounds, region, block, n).error is None,
    decreases n,
{
    if n > 0 {
        fill_goes_on(w, bounds, region, block, n - 1);
        filled_so_far(w, bounds, region, block, n - 1);
        let before = filled(w, bounds, region, block, n - 1).w;
        let c = region_cell(region, false, n - 1);
        assert(is_listed_at(region, false, n - 1, c));
        positions_are_listed_once(region, false, c);
        assert(lies_in(c, region));
        assert(is_free(w, bounds, c));
        assert(!listed_before(region, false, n - 1, c));
        assert(before.block(c.coords()) == 0);
        if n - 1 == 0 {
            assert(region_box(region).cell(0) == region_box(region).from) by {
                first_cell(region_box(region));
            }
            assert(c == region.min);
            let q = choose|q: BlockPos| #[trigger]
                next_to(region.min, q) && w.block((q.x as int, q.y as int, q.z as int)) != 0;
            assert(before.block(q.coords()) != 0);
            assert(next_to(c, q));
        } else {
            let j = earlier_cell_beside(region, n - 1);
            let q = region_cell(region, false, j);
            assert(is_listed_at(region, false, j, q));
            assert(listed_before(region, false, n - 1, q));
            assert(before.block(q.coords()) == block);
            assert(next_to(c, q));
        }
        assert(before.loaded(c.coords()));
        assert(may_place(before, bounds, c, block));
        tools_edit_where_they_may(before, bounds, c, block);
    }
}

proof fn clearing_goes_on(w: WorldView, bounds: WorldBounds, region: Region, n: int)
    requires
        region.is_ordered(),
        0 <= n <= region.spec_volume(),
        can_be_cleared(w, bounds, region),
    ensures
        filled(w, bounds, region, 0, n).error is None,
    decreases n,
{
    if n > 0 {
        clearing_goes_on(w, bounds, region, n - 1);
        filled_so_far(w, bounds, region, 0, n - 1);
        let before = filled(w, bounds, region, 0, n - 1).w;
        let c = region_cell(region, true, n - 1);
        assert(is_listed_at(region, true, n - 1, c));
        positions_are_listed_once(region, true, c);
        assert(lies_in(c, region));
        assert(!listed_before(region, true, n - 1, c));
        assert(before.block(c.coords()) == w.block(c.coords()));
        tools_edit_where_they_may(before, bounds, c, 0);
    }
}

proof fn fill_never_failed(
    w: WorldView,
    bounds: WorldBounds,
    region: Region,
    block: BlockState,
    k: int,
    n: int,
)
    requires
        0 <= k <= n,
        filled(w, bounds, region, block, n).error is None,
    ensures
        filled(w, bounds, region, block, k).error is None,
    decreases n,
{
    if k < n {
        fill_never_failed(w, bounds, region, block, k, n - 1);
    }
}

proof fn filled_cell_was_free(
    w: WorldView,
    bounds: WorldBounds,
    region: Region,
    block: BlockState,
    k: int,
)
    requires
        region.is_ordered(),
        0 <= k < region.spec_volume(),
        filled(w, bounds, region, block, k + 1).error is None,
    ensures
        block != 0 ==> in_palette(block) && block != 4276 && is_free(
            w,
            bounds,
            region_cell(region, false, k),
        ),
        block != 0 && k == 0 ==> exists|q: BlockPos| #[trigger]
            next_to(region_cell(region, false, k), q) && w.block(
                (q.x as int, q.y as int, q.z as int),
            ) != 0,
        block == 0 ==> ({
            let c = region_cell(region, true, k);
            w.block((c.x as int, c.y as int, c.z as int)) == 0 || may_remove(w, bounds, c)
        }),
{
    fill_never_failed(w, bounds, region, block, k, k + 1);
    filled_so_far(w, bounds, region, block, k);
    let before = filled(w, bounds, region, block, k).w;
    let reverse_y = block == 0;
    let c = region_cell(region, reverse_y, k);
    assert(is_listed_at(region, reverse_y, k, c));
    positions_are_listed_once(region, reverse_y, c);
    assert(!listed_before(region, reverse_y, k, c));
    assert(before.block(c.coords()) == w.block(c.coords()));
    assert(before.loaded(c.coords()) == w.loaded(c.coords()));
    tools_edit_where_they_may(before, bounds, c, block);
}

/// A fill comes to its end exactly where the region can be filled; with air, exactly where it can be
/// cleared.
pub proof fn fill_is_completed_exactly_when(
    w: WorldView,
    bounds: WorldBounds,
    region: Region,
    block: BlockState,
)
    requires
        region.is_ordered(),
    ensures
        filled(w, bounds, region, block, region.spec_volume()).error is None <==> if block == 0 {
            can_be_cleared(w, bounds, region)
        } else {
            can_be_filled(w, bounds, region, block)
        },
{
    let n = region.spec_volume();
    let b = region_box(region);
    region_volume(region);
    assert(0 < b.dz() * (b.dx() * b.dy())) by (nonlinear_arith)
        requires
            0 < b.dx(),
            0 < b.dy(),
            0 < b.dz(),
    ;
    if filled(w, bounds, region, block, n).error is None {
        let reverse_y = block == 0;
        assert forall|p: BlockPos| #[trigger] lies_in(p, region) implies if block == 0 {
            w.block((p.x as int, p.y as int, p.z as int)) == 0 || may_remove(w, bounds, p)
        } else {
            is_free(w, bounds, p)
        } by {
            positions_are_listed_once(region, reverse_y, p);
            let k = choose|k: int| is_listed_at(region, reverse_y, k, p);
            fill_never_failed(w, bounds, region, block, k + 1, n);
            filled_cell_was_free(w, bounds, region, block, k);
        }
        fill_never_failed(w, bounds, region, block, 1, n);
        filled_cell_was_free(w, bounds, region, block, 0);
        first_cell(b);
        assert(region_cell(region, false, 0) == region.min);
    }
    if block == 0 && can_be_cleared(w, bounds, region) {
        clearing_goes_on(w, bounds, region, n);
    }
    if block != 0 && can_be_filled(w, bounds, region, block) {
        fill_goes_on(w, bounds, region, block, n);
    }
}

/// A fill that comes to its end leaves the block at every position of the region, and changes no
/// other; it counts every position once, as edited or as skipped, and only air is ever skipped.
pub proof fn completed_fill_fills_the_region(
    w: WorldView,
    bounds: WorldBounds,
    region: Region,
    block: BlockState,
    p: BlockPos,
)
    requires
        region.is_ordered(),
        filled(w, bounds, region, block, region.spec_volume()).error is None,
    ensures
        ({
            let state = filled(w, bounds, region, block, region.spec_volume());
            &&& state.w.block((p.x as int, p.y as int, p.z as int)) == if lies_in(p, region) {
                block
            } else {
                w.block((p.x as int, p.y as int, p.z as int))
            }
            &&& state.edits.len() + state.skipped == (region.max.x - region.min.x + 1) * (
            region.max.y - region.min.y + 1) * (region.max.z - region.min.z + 1)
            &&& block != 0 ==> state.skipped == 0
        }),
{
    let n = region.spec_volume();
    let b = region_box(region);
    region_volume(region);
    assert(0 < b.dz() * (b.dx() * b.dy())) by (nonlinear_arith)
        requires
            0 < b.dx(),
            0 < b.dy(),
            0 < b.dz(),
    ;
    filled_so_far(w, bounds, region, block, n);
    let reverse_y = block == 0;
    positions_are_listed_once(region, reverse_y, p);
    if lies_in(p, region) {
        let k = choose|k: int| is_listed_at(region, reverse_y, k, p);
        assert(is_listed_at(region, reverse_y, k, p));
        assert(listed_before(region, reverse_y, n, p));
    }
    assert(filled(w, bounds, region, block, n).w.block(p.coords()) == if listed_before(
        region,
        reverse_y,
        n,
        p,
    ) {
        block
    } else {
        w.block(p.coords())
    });
}

/// True iff one of the edits is at that position.
pub open spec fn has_edit(edits: Seq<BlockEdit>, p: BlockPos) -> bool {
    exists|i: int| 0 <= i < edits.len() && (#[trigger] edits[i]).position == p
}

/// The edits of a fill are what it changed, also where it failed on its way: each is at a position of
/// the region of its own, of the block that was asked for, and no other block was changed.
pub proof fn fill_edits_are_what_changed(
    w: WorldView,
    bounds: WorldBounds,
    region: Region,
    block: BlockState,
    n: int,
    p: BlockPos,
)
    requires
        region.is_ordered(),
        0 <= n <= region.spec_volume(),
    ensures
        ({
            let state = filled(w, bounds, region, block, n);
            &&& state.w.block((p.x as int, p.y as int, p.z as int)) == if has_edit(state.edits, p) {
                block
            } else {
                w.block((p.x as int, p.y as int, p.z as int))
            }
            &&& has_edit(state.edits, p) ==> lies_in(p, region) && w.loaded(
                (p.x as int, p.y as int, p.z as int),
            ) && if block == 0 {
                w.block((p.x as int, p.y as int, p.z as int)) != 0
            } else {
                w.block((p.x as int, p.y as int, p.z as int)) == 0
            }
            &&& forall|i: int| 0 <= i < state.edits.len() ==> fills_with(#[trigger] state.edits[i], block)
            &&& forall|i: int, j: int|
                0 <= i < j < state.edits.len() ==> (#[trigger] state.edits[i]).position != (
                #[trigger] state.edits[j]).position
        }),
{
    let state = filled(w, bounds, region, block, n);
    fill_edits(w, bounds, region, block, n);
    assert(state.w.block(p.coords()) == if has_edit(state.edits, p) {
        block
    } else {
        w.block(p.coords())
    });
    if has_edit(state.edits, p) {
        let i = choose|i: int| 0 <= i < state.edits.len() && (#[trigger] state.edits[i]).position == p;
        assert(state.edits[i].position == p);
        let reverse_y = block == 0;
        positions_are_listed_once(region, reverse_y, p);
        assert(listed_before(region, reverse_y, n, p));
    }
}

/// True iff the edit leaves the block, and says what the untouched world has in its place.
pub open spec fn fills_with(edit: BlockEdit, block: BlockState) -> bool {
    &&& edit.block == block
    &&& edit.base_block == base_block(
        (edit.position.x as int, edit.position.y as int, edit.position.z as int),
    )
    &&& edit.command_kind == if block == 0 {
        PersistedCommandKind::RemoveBlock
    } else {
        PersistedCommandKind::SetBlock
    }
}

proof fn fill_edits(w: WorldView, bounds: WorldBounds, region: Region, block: BlockState, n: int)
    requires
        region.is_ordered(),
        0 <= n <= region.spec_volume(),
    ensures
        ({
            let state = filled(w, bounds, region, block, n);
            &&& forall|q: (int, int, int)| #[trigger] state.w.loaded(q) == w.loaded(q)
            &&& forall|p: BlockPos|
                #![trigger state.w.block(p.coords())]
                state.w.block(p.coords()) == if has_edit(state.edits, p) {
                    block
                } else {
                    w.block(p.coords())
                }
            &&& forall|i: int|
                #![trigger state.edits[i]]
                0 <= i < state.edits.len() ==> fills_with(state.edits[i], block) && listed_before(
                    region,
                    block == 0,
                    n,
                    state.edits[i].position,
                ) && w.loaded(state.edits[i].position.coords()) && if block == 0 {
                    w.block(state.edits[i].position.coords()) != 0
                } else {
                    w.block(state.edits[i].position.coords()) == 0
                }
            &&& forall|i: int, j: int|
                0 <= i < j < state.edits.len() ==> (#[trigger] state.edits[i]).position != (
                #[trigger] state.edits[j]).position
        }),
    decreases n,
{
    if n > 0 {
        fill_edits(w, bounds, region, block, n - 1);
        let before = filled(w, bounds, region, block, n - 1);
        let after = filled(w, bounds, region, block, n);
        let reverse_y = block == 0;
        let c = region_cell(region, reverse_y, n - 1);
        assert(is_listed_at(region, reverse_y, n - 1, c));
        positions_are_listed_once(region, reverse_y, c);
        assert(!listed_before(region, reverse_y, n - 1, c));
        assert(!has_edit(before.edits, c));
        assert(before.w.block(c.coords()) == w.block(c.coords()));
        tools_edit_where_they_may(before.w, bounds, c, block);
        assert(listed_before(region, reverse_y, n, c));
        assert forall|q: (int, int, int)| #[trigger] after.w.loaded(q) == w.loaded(q) by {
            assert(before.w.loaded(q) == w.loaded(q));
        }
        assert forall|q: BlockPos| listed_before(region, reverse_y, n - 1, q) implies listed_before(
            region,
            reverse_y,
            n,
            q,
        ) by {
            let k = choose|k: int| 0 <= k < n - 1 && #[trigger] is_listed_at(region, reverse_y, k, q);
            assert(is_listed_at(region, reverse_y, k, q));
        }
        if after.edits.len() > before.edits.len() {
            let last = before.edits.len() as int;
            assert(after.edits[last].position == c);
            assert forall|p: BlockPos| #![trigger after.w.block(p.coords())] after.w.block(
                p.coords(),
            ) == if has_edit(after.edits, p) {
                block
            } else {
                w.block(p.coords())
            } by {
                assert(before.w.block(p.coords()) == if has_edit(before.edits, p) {
                    block
                } else {
                    w.block(p.coords())
                });
                if has_edit(before.edits, p) {
                    let i = choose|i: int|
                        0 <= i < before.edits.len() && (#[trigger] before.edits[i]).position == p;
                    assert(after.edits[i].position == p);
                }
                if has_edit(after.edits, p) && p != c {
                    let i = choose|i: int|
                        0 <= i < after.edits.len() && (#[trigger] after.edits[i]).position == p;
                    assert(before.edits[i].position == p);
                }
            }
        }
    }
}

/// A fill that comes to its end marks one edit for each position of the region, and loads the columns
/// of these positions and no other.
pub proof fn completed_fill_marks_its_columns(
    marks: LifecycleView,
    region: Region,
    reverse_y: bool,
    n: int,
    column: (int, int),
)
    requires
        region.is_ordered(),
        0 <= n <= region.spec_volume(),
        marks.dirty_chunks_marked + n <= u64::MAX,
    ensures
        ({
            let after = marked_region(marks, region, reverse_y, n);
            &&& after.dirty_chunks_marked == marks.dirty_chunks_marked + n
            &&& after.generated_chunks == marks.generated_chunks
            &&& after.storage_loaded_chunks == marks.storage_loaded_chunks
            &&& after.unloaded_chunks == marks.unloaded_chunks
            &&& after.loaded.contains_key(column) <==> marks.loaded.contains_key(column)
                || has_listed_block(region, reverse_y, n, column)
        }),
    decreases n,
{
    if n > 0 {
        completed_fill_marks_its_columns(marks, region, reverse_y, n - 1, column);
        let c = region_cell(region, reverse_y, n - 1);
        columns_hold_their_blocks(c.coords(), column);
        assert(is_listed_at(region, reverse_y, n - 1, c));
        if has_listed_block(region, reverse_y, n - 1, column) {
            let k = choose|k: int|
                0 <= k < n - 1 && in_column(
                    (#[trigger] region_cell(region, reverse_y, k)).coords(),
                    column,
                );
            assert(in_column(region_cell(region, reverse_y, k).coords(), column));
            assert(has_listed_block(region, reverse_y, n, column));
        }
        if column_of(c.coords()) == column {
            assert(in_column(region_cell(region, reverse_y, n - 1).coords(), column));
            assert(has_listed_block(region, reverse_y, n, column));
        }
    }
}

/// True iff one of the first `n` positions that the region lists lies in the column.
pub open spec fn has_listed_block(region: Region, reverse_y: bool, n: int, column: (int, int)) -> bool {
    exists|k: int|
        0 <= k < n && in_column((#[trigger] region_cell(region, reverse_y, k)).coords(), column)
}

/// A fill that fails names the position where it stopped, one of the region that it came to and did not
/// edit, and the rule that was broken there.
pub proof fn failed_fill_names_where_it_stopped(
    w: WorldView,
    bounds: WorldBounds,
    region: Region,
    block: BlockState,
    n: int,
) -> (k: int)
    requires
        region.is_ordered(),
        0 <= n <= region.spec_volume(),
        filled(w, bounds, region, block, n).error is Some,
    ensures
        0 <= k < n,
        ({
            let state = filled(w, bounds, region, block, n);
            let p = region_cell(region, block == 0, k);
            &&& lies_in(p, region)
            &&& writes(state.error->0, p.spec_text())
            &&& filled(w, bounds, region, block, k).error is None
            &&& state.edits == filled(w, bounds, region, block, k).edits
            &&& block == 0 ==> !may_remove(filled(w, bounds, region, block, k).w, bounds, p)
            &&& block != 0 ==> !may_place(filled(w, bounds, region, block, k).w, bounds, p, block)
        }),
    decreases n,
{
    let before = filled(w, bounds, region, block, n - 1);
    if before.error is Some {
        failed_fill_names_where_it_stopped(w, bounds, region, block, n - 1)
    } else {
        let reverse_y = block == 0;
        let p = region_cell(region, reverse_y, n - 1);
        assert(is_listed_at(region, reverse_y, n - 1, p));
        positions_are_listed_once(region, reverse_y, p);
        tools_edit_where_they_may(before.w, bounds, p, block);
        let error = tool_error_of(before.w, bounds, fill_command(p, block))->0;
        let text = "fill_region failed at "@ + p.spec_text() + ": "@ + error.spec_message();
        assert(text =~= "fill_region failed at "@ + p.spec_text() + (": "@ + error.spec_message()));
        assert(stands_between(
            text,
            "fill_region failed at "@,
            p.spec_text(),
            ": "@ + error.spec_message(),
        ));
        n - 1
    }
}

} // verus!
