//! The world: the loaded regions by coordinate, and point queries for the
//! block and the light level at a position.

use std::collections::HashMap;
use vstd::prelude::*;

use crate::block::Block;
use crate::coords::{
    chunk_slot, has_section, region_coord, region_of, section_index, section_of, slot_of,
    voxel_offset, BlockPos,
};
use crate::region::Region;

verus! {

/// The key under which the region `(x, z)` is kept.
pub open spec fn region_key(x: int, z: int) -> int {
    (x + 0x8000_0000) * 0x1_0000_0000 + (z + 0x8000_0000)
}

/// Computes [`region_key`].
fn key_of(x: i32, z: i32) -> (key: u64)
    ensures
        key == region_key(x as int, z as int),
{
    ((x as i64 + 0x8000_0000) as u64) * 0x1_0000_0000 + ((z as i64 + 0x8000_0000) as u64)
}

/// Two regions have the same key only if they are the same region.
proof fn lemma_region_key_is_one_to_one(x: int, z: int, other_x: int, other_z: int)
    requires
        -0x8000_0000 <= z < 0x8000_0000,
        -0x8000_0000 <= other_z < 0x8000_0000,
        region_key(x, z) == region_key(other_x, other_z),
    ensures
        x == other_x,
        z == other_z,
{
}

/// The regions that were loaded, by region coordinate.
pub struct World {
    regions: HashMap<u64, Region>,
}

impl World {
    /// The region `(x, z)`, if it is loaded.
    pub closed spec fn spec_region(&self, x: int, z: int) -> Option<Region> {
        if -0x8000_0000 <= x < 0x8000_0000 && -0x8000_0000 <= z < 0x8000_0000
            && self.regions@.contains_key(region_key(x, z) as u64) {
            Some(self.regions@[region_key(x, z) as u64])
        } else {
            None
        }
    }

    /// The section that holds the block at `(x, y, z)`, if it is loaded.
    pub open spec fn spec_section_at(&self, pos: BlockPos) -> Option<crate::chunk::Section> {
        match self.spec_region(region_coord(pos.x as int), region_coord(pos.z as int)) {
            None => None,
            Some(region) => match region.spec_chunk(
                chunk_slot(pos.x as int),
                chunk_slot(pos.z as int),
            ) {
                None => None,
                Some(chunk) => if has_section(pos.y as int) {
                    chunk.spec_section(section_index(pos.y as int))
                } else {
                    None
                },
            },
        }
    }

    /// The block at `pos`, or `None` where no data is loaded: in a region
    /// or a chunk that is absent, and below or above the heights that
    /// chunks store.
    pub open spec fn spec_block_at(&self, pos: BlockPos) -> Option<Block> {
        match self.spec_section_at(pos) {
            None => None,
            Some(section) => section.spec_block(
                voxel_offset(pos.x as int, pos.y as int, pos.z as int),
            ),
        }
    }

    /// The light level at `pos`: block light plus sky light, and zero where
    /// no data is loaded.
    pub open spec fn spec_light_at(&self, pos: BlockPos) -> int {
        match self.spec_section_at(pos) {
            None => 0,
            Some(section) => section.spec_light(
                voxel_offset(pos.x as int, pos.y as int, pos.z as int),
            ),
        }
    }

    /// A world with no region loaded.
    pub fn new() -> (world: World)
        ensures
            forall|x: int, z: int| world.spec_region(x, z) is None,
    {
        World { regions: HashMap::new() }
    }

    /// Loads `region` as the region `(x, z)`, in place of the one that was
    /// loaded there, if any.
    pub fn insert(&mut self, x: i32, z: i32, region: Region)
        ensures
            final(self).spec_region(x as int, z as int) == Some(region),
            forall|other_x: int, other_z: int|
                other_x != x || other_z != z ==> final(self).spec_region(other_x, other_z)
                    == old(self).spec_region(other_x, other_z),
    {
        let key = key_of(x, z);
        self.regions.insert(key, region);
        proof {
            assert forall|other_x: int, other_z: int|
                other_x != x || other_z != z implies self.spec_region(other_x, other_z)
                == old(self).spec_region(other_x, other_z) by {
                if -0x8000_0000 <= other_x < 0x8000_0000 && -0x8000_0000 <= other_z < 0x8000_0000 {
                    if region_key(other_x, other_z) == region_key(x as int, z as int) {
                        lemma_region_key_is_one_to_one(other_x, other_z, x as int, z as int);
                    }
                }
            }
        }
    }

    /// The region `(x, z)`, if it is loaded.
    pub fn region(&self, x: i32, z: i32) -> (region: Option<&Region>)
        ensures
            match region {
                Some(found) => self.spec_region(x as int, z as int) == Some(*found),
                None => self.spec_region(x as int, z as int) is None,
            },
    {
        let key = key_of(x, z);
        self.regions.get(&key)
    }

    /// The section that holds the block at `pos`, if it is loaded.
    fn section_at(&self, pos: BlockPos) -> (section: Option<&crate::chunk::Section>)
        ensures
            match section {
                Some(found) => self.spec_section_at(pos) == Some(*found),
                None => self.spec_section_at(pos) is None,
            },
    {
        let region = match self.region(region_of(pos.x), region_of(pos.z)) {
            None => {
                return None;
            },
            Some(region) => region,
        };
        let chunk = match region.chunk(slot_of(pos.x), slot_of(pos.z)) {
            None => {
                return None;
            },
            Some(chunk) => chunk,
        };
        match section_of(pos.y) {
            None => None,
            Some(index) => chunk.section(index),
        }
    }

    /// Computes [`World::spec_block_at`]. Every position has an answer.
    pub fn block_at(&self, pos: BlockPos) -> (block: Option<Block>)
        ensures
            block == self.spec_block_at(pos),
    {
        match self.section_at(pos) {
            None => None,
            Some(section) => section.block(pos.offset()),
        }
    }

    /// Computes [`World::spec_light_at`]. Every position has an answer,
    /// between 0 and 30.
    pub fn light_at(&self, pos: BlockPos) -> (level: u8)
        ensures
            level == self.spec_light_at(pos),
            level <= 30,
    {
        match self.section_at(pos) {
            None => 0,
            Some(section) => section.light(pos.offset()),
        }
    }
}

/// Where the region of a position is not loaded, or its height is one that
/// chunks do not store, the position has no block and no light.
pub proof fn lemma_no_data_where_nothing_is_loaded(world: World, pos: BlockPos)
    requires
        world.spec_region(region_coord(pos.x as int), region_coord(pos.z as int)) is None
            || !has_section(pos.y as int),
    ensures
        world.spec_block_at(pos) is None,
        world.spec_light_at(pos) == 0,
{
}

/// A light level is never above 30.
pub proof fn lemma_light_is_bounded(world: World, pos: BlockPos)
    ensures
        0 <= world.spec_light_at(pos) <= 30,
{
}

} // verus!
