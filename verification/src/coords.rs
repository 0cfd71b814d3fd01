//! World coordinates and their decomposition into region, chunk, section
//! and in-section offsets.
//!
//! Block coordinates are signed and cross zero, so every quotient here is a
//! floor and every remainder is the least non-negative one.

use vstd::prelude::*;

verus! {

/// Lowest block height that a chunk stores.
pub const MIN_Y: i32 = -64;

/// One past the highest block height that a chunk stores.
pub const MAX_Y: i32 = 320;

/// The coordinate of the region that holds block coordinate `block`.
pub open spec fn region_coord(block: int) -> int {
    block / 512
}

/// The coordinate of the chunk that holds block coordinate `block`.
pub open spec fn chunk_coord(block: int) -> int {
    block / 16
}

/// The index, within its region, of the chunk that holds `block`.
pub open spec fn chunk_slot(block: int) -> int {
    (block / 16) % 32
}

/// The index, within its chunk, of block coordinate `block`.
pub open spec fn local_coord(block: int) -> int {
    block % 16
}

/// Whether chunks store blocks at height `y`.
pub open spec fn has_section(y: int) -> bool {
    -64 <= y < 320
}

/// The index of the section that holds height `y`.
pub open spec fn section_index(y: int) -> int {
    (y + 64) / 16
}

/// The index of a block within its section: height varies slowest, then
/// `z`, then `x`.
pub open spec fn voxel_offset(x: int, y: int, z: int) -> int {
    (y % 16) * 256 + (z % 16) * 16 + x % 16
}

/// A block position in world coordinates.
#[derive(Clone, Copy, Debug, PartialEq, Eq, Structural)]
pub struct BlockPos {
    pub x: i32,
    pub y: i32,
    pub z: i32,
}

/// Computes [`region_coord`].
pub fn region_of(block: i32) -> (region: i32)
    ensures
        region == region_coord(block as int),
{
    let quotient: i32 = block / 512;
    if block % 512 < 0 {
        quotient - 1
    } else {
        quotient
    }
}

/// Computes [`chunk_coord`].
pub fn chunk_of(block: i32) -> (chunk: i32)
    ensures
        chunk == chunk_coord(block as int),
{
    let quotient: i32 = block / 16;
    if block % 16 < 0 {
        quotient - 1
    } else {
        quotient
    }
}

/// Computes [`chunk_slot`].
pub fn slot_of(block: i32) -> (slot: usize)
    ensures
        slot == chunk_slot(block as int),
        slot < 32,
{
    local32(chunk_of(block))
}

/// The least non-negative remainder of a chunk coordinate modulo 32: the
/// chunk's slot in its region.
pub fn local32(chunk: i32) -> (slot: usize)
    ensures
        slot == chunk as int % 32,
        slot < 32,
{
    let remainder: i32 = chunk % 32;
    if remainder < 0 {
        (remainder + 32) as usize
    } else {
        remainder as usize
    }
}

/// Computes [`local_coord`].
pub fn local_of(block: i32) -> (local: usize)
    ensures
        local == local_coord(block as int),
        local < 16,
{
    let remainder: i32 = block % 16;
    if remainder < 0 {
        (remainder + 16) as usize
    } else {
        remainder as usize
    }
}

/// Computes [`section_index`], for the heights that have a section.
pub fn section_of(y: i32) -> (section: Option<usize>)
    ensures
        has_section(y as int) ==> section == Some(section_index(y as int) as usize)
            && section_index(y as int) < 24,
        !has_section(y as int) ==> section is None,
{
    if y < MIN_Y || y >= MAX_Y {
        None
    } else {
        Some(((y + 64) / 16) as usize)
    }
}

impl BlockPos {
    /// Computes [`voxel_offset`].
    pub fn offset(&self) -> (offset: usize)
        ensures
            offset == voxel_offset(self.x as int, self.y as int, self.z as int),
            offset < 4096,
    {
        local_of(self.y) * 256 + local_of(self.z) * 16 + local_of(self.x)
    }
}

/// Every block coordinate, negative ones included, is made up of its
/// region, a chunk slot below 32 and a local coordinate below 16.
pub proof fn lemma_block_coordinate_splits(block: int)
    ensures
        block == 512 * region_coord(block) + 16 * chunk_slot(block) + local_coord(block),
        0 <= chunk_slot(block) < 32,
        0 <= local_coord(block) < 16,
{
}

/// A block coordinate splits into region, chunk slot and local coordinate
/// in one way only.
pub proof fn lemma_block_coordinate_split_is_unique(block: int, region: int, slot: int, local: int)
    requires
        0 <= slot < 32,
        0 <= local < 16,
        block == 512 * region + 16 * slot + local,
    ensures
        region == region_coord(block),
        slot == chunk_slot(block),
        local == local_coord(block),
{
    assert(block == 16 * (32 * region + slot) + local);
    assert(block / 16 == 32 * region + slot);
}

/// Every height that has a section splits into the section's index, below
/// 24, and a local height below 16, counted from the lowest height.
pub proof fn lemma_height_splits(y: int)
    requires
        has_section(y),
    ensures
        y == -64 + 16 * section_index(y) + local_coord(y),
        0 <= section_index(y) < 24,
        0 <= local_coord(y) < 16,
{
}

/// The offset of a block within its section is below 4096 and determines
/// the three local coordinates.
pub proof fn lemma_voxel_offset_splits(x: int, y: int, z: int)
    ensures
        0 <= voxel_offset(x, y, z) < 4096,
        voxel_offset(x, y, z) % 16 == local_coord(x),
        (voxel_offset(x, y, z) / 16) % 16 == local_coord(z),
        voxel_offset(x, y, z) / 256 == local_coord(y),
{
}

/// A half-open rectangle of block columns: `start_x <= x < end_x` and
/// `start_z <= z < end_z`.
#[derive(Clone, Copy, Debug, PartialEq, Eq, Structural)]
pub struct Area {
    pub start_x: i32,
    pub start_z: i32,
    pub end_x: i32,
    pub end_z: i32,
}

impl Area {
    /// Whether the block column `(x, z)` lies in the area.
    pub open spec fn contains(&self, x: int, z: int) -> bool {
        self.start_x <= x < self.end_x && self.start_z <= z < self.end_z
    }

    /// Whether some block column of the square of side `side` whose least
    /// corner is `(side * square_x, side * square_z)` lies in the area.
    pub open spec fn meets_square(&self, side: int, square_x: int, square_z: int) -> bool {
        &&& self.start_x < self.end_x
        &&& self.start_z < self.end_z
        &&& side * square_x < self.end_x
        &&& side * square_x + side > self.start_x
        &&& side * square_z < self.end_z
        &&& side * square_z + side > self.start_z
    }

    /// Whether the footprint of chunk `(chunk_x, chunk_z)` meets the area.
    pub open spec fn meets_chunk(&self, chunk_x: int, chunk_z: int) -> bool {
        self.meets_square(16, chunk_x, chunk_z)
    }

    /// Whether the footprint of region `(region_x, region_z)` meets the
    /// area.
    pub open spec fn meets_region(&self, region_x: int, region_z: int) -> bool {
        self.meets_square(512, region_x, region_z)
    }

    /// Whether the square of side `side` with least corner `(low_x, low_z)`
    /// shares a block column with the area.
    fn intersects_span(&self, side: i64, low_x: i64, low_z: i64) -> (meets: bool)
        requires
            0 < side <= 512,
            -0x1_0000_0000_0000 <= low_x <= 0x1_0000_0000_0000,
            -0x1_0000_0000_0000 <= low_z <= 0x1_0000_0000_0000,
        ensures
            meets == (self.start_x < self.end_x && self.start_z < self.end_z && low_x < self.end_x
                && low_x + side > self.start_x && low_z < self.end_z && low_z + side
                > self.start_z),
    {
        self.start_x < self.end_x && self.start_z < self.end_z && low_x < self.end_x as i64 && low_x
            + side > self.start_x as i64 && low_z < self.end_z as i64 && low_z + side
            > self.start_z as i64
    }

    /// Computes [`Area::meets_chunk`].
    pub fn intersects_chunk(&self, chunk_x: i32, chunk_z: i32) -> (meets: bool)
        ensures
            meets == self.meets_chunk(chunk_x as int, chunk_z as int),
    {
        self.intersects_span(16, 16 * (chunk_x as i64), 16 * (chunk_z as i64))
    }

    /// Computes [`Area::meets_region`].
    pub fn intersects_region(&self, region_x: i32, region_z: i32) -> (meets: bool)
        ensures
            meets == self.meets_region(region_x as int, region_z as int),
    {
        self.intersects_span(512, 512 * (region_x as i64), 512 * (region_z as i64))
    }
}

/// A square meets an area exactly when they share a block column.
pub proof fn lemma_meets_square_shares_column(area: Area, side: int, square_x: int, square_z: int)
    requires
        side > 0,
    ensures
        area.meets_square(side, square_x, square_z) <==> exists|x: int, z: int|
            #![trigger area.contains(x, z)]
            area.contains(x, z) && side * square_x <= x < side * square_x + side && side * square_z
                <= z < side * square_z + side,
{
    if area.meets_square(side, square_x, square_z) {
        let x = if side * square_x >= area.start_x {
            side * square_x
        } else {
            area.start_x as int
        };
        let z = if side * square_z >= area.start_z {
            side * square_z
        } else {
            area.start_z as int
        };
        assert(area.contains(x, z));
    }
}

/// A chunk meets an area exactly when one of the area's block columns
/// belongs to the chunk.
pub proof fn lemma_meets_chunk_holds_column(area: Area, chunk_x: int, chunk_z: int)
    ensures
        area.meets_chunk(chunk_x, chunk_z) <==> exists|x: int, z: int|
            #![trigger area.contains(x, z)]
            area.contains(x, z) && chunk_coord(x) == chunk_x && chunk_coord(z) == chunk_z,
{
    lemma_meets_square_shares_column(area, 16, chunk_x, chunk_z);
    if area.meets_chunk(chunk_x, chunk_z) {
        let (x, z) = choose|x: int, z: int|
            #![trigger area.contains(x, z)]
            area.contains(x, z) && 16 * chunk_x <= x < 16 * chunk_x + 16 && 16 * chunk_z <= z < 16
                * chunk_z + 16;
        assert(area.contains(x, z) && chunk_coord(x) == chunk_x && chunk_coord(z) == chunk_z);
    }
    if exists|x: int, z: int|
        #![trigger area.contains(x, z)]
        area.contains(x, z) && chunk_coord(x) == chunk_x && chunk_coord(z) == chunk_z {
        let (x, z) = choose|x: int, z: int|
            #![trigger area.contains(x, z)]
            area.contains(x, z) && chunk_coord(x) == chunk_x && chunk_coord(z) == chunk_z;
        assert(area.contains(x, z) && 16 * chunk_x <= x < 16 * chunk_x + 16 && 16 * chunk_z <= z
            < 16 * chunk_z + 16);
    }
}

/// Whether a coordinate is one that a block position can have.
pub open spec fn in_grid(coordinate: int) -> bool {
    -0x8000_0000 <= coordinate <= 0x7fff_ffff
}

} // verus!
