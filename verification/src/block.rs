//! Block states, positions, chunk columns and the text of a block state.

use vstd::prelude::*;
use vstd::string::StringExecFns;
use crate::text::{decimal, push_i64};

verus! {

/// A block state, by its raw id in the protocol's registry of block states.
pub type BlockState = u16;

/// The greatest raw id of a block state.
pub const MAX_BLOCK_STATE: u16 = 24134;

pub const AIR: u16 = 0;

pub const STONE: u16 = 1;

pub const GRASS_BLOCK: u16 = 9;

pub const DIRT: u16 = 10;

pub const COBBLESTONE: u16 = 14;

pub const OAK_PLANKS: u16 = 15;

pub const BEDROCK: u16 = 79;

pub const GLASS: u16 = 519;

pub const DIAMOND_BLOCK: u16 = 4276;

/// True iff `block` is the raw id of a block state.
pub open spec fn valid_state(block: BlockState) -> bool {
    block <= MAX_BLOCK_STATE
}

/// The position of a block in the world.
#[derive(Debug, Clone, Copy, PartialEq, Eq, PartialOrd, Ord, Hash, Structural)]
pub struct BlockPos {
    pub x: i32,
    pub y: i32,
    pub z: i32,
}

impl BlockPos {
    pub fn new(x: i32, y: i32, z: i32) -> (r: Self)
        ensures
            r == (BlockPos { x, y, z }),
    {
        BlockPos { x, y, z }
    }

    /// The position as a triple of mathematical integers.
    pub open spec fn coords(self) -> (int, int, int) {
        (self.x as int, self.y as int, self.z as int)
    }

    /// The text `BlockPos { x: .., y: .., z: .. }`.
    pub open spec fn spec_text(self) -> Seq<char> {
        "BlockPos { x: "@ + decimal(self.x as int) + ", y: "@ + decimal(self.y as int) + ", z: "@
            + decimal(self.z as int) + " }"@
    }

    /// The text `BlockPos { x: .., y: .., z: .. }`.
    pub fn text(self) -> (r: String)
        ensures
            r@ == self.spec_text(),
    {
        let mut out = "BlockPos { x: ".to_owned();
        push_i64(&mut out, self.x as i64);
        out.append(", y: ");
        push_i64(&mut out, self.y as i64);
        out.append(", z: ");
        push_i64(&mut out, self.z as i64);
        out.append(" }");
        out
    }
}

/// A column of chunks: 16 by 16 blocks over the whole height of the world.
#[derive(Debug, Clone, Copy, PartialEq, Eq, PartialOrd, Ord, Hash, Structural)]
pub struct ChunkColumn {
    pub x: i32,
    pub z: i32,
}

/// The column, by its coordinates, that holds the block position `p`.
pub open spec fn column_of(p: (int, int, int)) -> (int, int) {
    (p.0 / 16, p.2 / 16)
}

impl ChunkColumn {
    pub fn new(x: i32, z: i32) -> (r: Self)
        ensures
            r == (ChunkColumn { x, z }),
    {
        ChunkColumn { x, z }
    }

    /// The column as a pair of mathematical integers.
    pub open spec fn coords(self) -> (int, int) {
        (self.x as int, self.z as int)
    }

    /// The column that holds `position`.
    pub fn from_block_pos(position: BlockPos) -> (r: Self)
        ensures
            r.coords() == column_of(position.coords()),
    {
        ChunkColumn { x: floor_div(position.x, 16), z: floor_div(position.z, 16) }
    }

    /// The coordinates of the region, `region_size` columns wide, that holds this column.
    pub fn region_coords(self, region_size: i32) -> (r: (i32, i32))
        requires
            region_size > 0,
        ensures
            r.0 == self.x as int / region_size as int,
            r.1 == self.z as int / region_size as int,
    {
        (floor_div(self.x, region_size), floor_div(self.z, region_size))
    }
}

/// The quotient `a / b` rounded toward negative infinity.
pub fn floor_div(a: i32, b: i32) -> (r: i32)
    requires
        b > 0,
    ensures
        r == a as int / b as int,
{
    let wide: i64 = a as i64;
    let divisor: i64 = b as i64;
    if wide >= 0 {
        proof {
            vstd::arithmetic::div_mod::lemma_div_nonincreasing(wide as int, divisor as int);
            vstd::arithmetic::div_mod::lemma_div_pos_is_pos(wide as int, divisor as int);
        }
        (wide / divisor) as i32
    } else {
        // -wide - 1 >= 0 and floor(wide / b) == -((-wide - 1) / b) - 1
        let q: i64 = (-wide - 1) / divisor;
        proof {
            let n: int = -wide - 1;
            let d: int = divisor as int;
            vstd::arithmetic::div_mod::lemma_div_nonincreasing(n, d);
            vstd::arithmetic::div_mod::lemma_div_pos_is_pos(n, d);
            vstd::arithmetic::div_mod::lemma_fundamental_div_mod(n, d);
            let m = n % d;
            assert(0 <= m < d);
            assert(wide as int == (-q - 1) * d + (d - 1 - m)) by (nonlinear_arith)
                requires
                    -wide - 1 == d * q + m,
            ;
            vstd::arithmetic::div_mod::lemma_fundamental_div_mod_converse(
                wide as int,
                d,
                -q - 1,
                d - 1 - m,
            );
        }
        (-q - 1) as i32
    }
}

/// The text of a block state: its kind's name, and its properties where the kind has any.
pub uninterp spec fn state_text(block: u16) -> Seq<char>;

/// `valence::BlockState`'s `Display` text. What it writes is a function of the raw id alone and
/// is left unnamed but for that. `BlockState::from_raw` accepts every id up to the greatest one.
#[verifier::external_body]
pub(crate) fn block_text(block: BlockState) -> (r: String)
    requires
        valid_state(block),
    ensures
        r@ == state_text(block),
{
    valence::BlockState::from_raw(block).unwrap().to_string()
}

} // verus!
