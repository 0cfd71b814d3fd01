//! What a block looks like: the kind of geometry it is drawn with, and the
//! names of the textures on its faces.

use vstd::prelude::*;

use crate::block::{Block, BlockView};
use crate::properties::lookup;
use crate::text::{str_eq, strip_prefix};

verus! {

/// The kinds of geometry that blocks are drawn with.
#[derive(Clone, Copy, Debug, PartialEq, Eq, Structural)]
pub enum BlockModel {
    /// Nothing is drawn.
    Empty,
    /// A cube that hides what is behind it.
    SolidBlock,
    /// A cube that does not hide what is behind it.
    TransparentBlock,
    /// Two upright quads that cross along the diagonals of the voxel.
    Cross,
    /// A thin quad just inside each face whose flag is set.
    FlatDirectional { north: bool, south: bool, east: bool, west: bool, up: bool, down: bool },
}

/// Whether a block of this name is drawn as a cross.
pub open spec fn is_cross_name(name: Seq<char>) -> bool {
    ||| name == "minecraft:grass"@
    ||| name == "minecraft:fern"@
    ||| name == "minecraft:dead_bush"@
    ||| name == "minecraft:brown_mushroom"@
    ||| name == "minecraft:red_mushroom"@
    ||| name == "minecraft:small_dripleaf_stem_bottom"@
    ||| name == "minecraft:small_dripleaf_stem_top"@
    ||| name == "minecraft:big_dripleaf_stem"@
    ||| name == "minecraft:cave_vines"@
    ||| name == "minecraft:cave_vines_lit"@
    ||| name == "minecraft:cave_vines_plant"@
    ||| name == "minecraft:cave_vines_plant_lit"@
}

/// Whether a block of this name is drawn as quads on its flagged faces.
pub open spec fn is_flat_name(name: Seq<char>) -> bool {
    ||| name == "minecraft:glow_lichen"@
    ||| name == "minecraft:vine"@
    ||| name == "minecraft:sculk_vein"@
}

/// Whether the property `key` is present with the value `true`.
pub open spec fn flag(properties: Seq<(Seq<char>, Seq<char>)>, key: Seq<char>) -> bool {
    lookup(properties, key) == Some("true"@)
}

/// The kind of geometry that a block is drawn with, which goes by the
/// block's name: air is drawn as nothing whatever its properties, and a name
/// that no rule names is a solid cube. Only the flags of a flat block are
/// read off the properties.
pub open spec fn model_of(block: BlockView) -> BlockModel {
    if block.name == "minecraft:air"@ {
        BlockModel::Empty
    } else if block.name == "minecraft:cave_air"@ {
        BlockModel::Empty
    } else if block.name == "minecraft:spruce_leaves"@ {
        BlockModel::TransparentBlock
    } else if is_cross_name(block.name) {
        BlockModel::Cross
    } else if is_flat_name(block.name) {
        BlockModel::FlatDirectional {
            north: flag(block.properties, "north"@),
            south: flag(block.properties, "south"@),
            east: flag(block.properties, "east"@),
            west: flag(block.properties, "west"@),
            up: flag(block.properties, "up"@),
            down: flag(block.properties, "down"@),
        }
    } else {
        BlockModel::SolidBlock
    }
}

/// Whether a block hides the faces of its neighbours: only solid cubes do.
pub open spec fn hides_neighbours(block: BlockView) -> bool {
    model_of(block) == BlockModel::SolidBlock
}

/// A block's name without the namespace `minecraft:`, where it has it.
pub open spec fn bare_name(name: Seq<char>) -> Seq<char> {
    if "minecraft:"@.is_prefix_of(name) {
        name.skip("minecraft:"@.len() as int)
    } else {
        name
    }
}

/// The texture of a block of this name, where all faces share one.
pub open spec fn texture_name(name: Seq<char>) -> Seq<char> {
    let bare = bare_name(name);
    if bare == "infested_stone"@ {
        "stone"@
    } else if bare == "infested_deepslate"@ {
        "deepslate"@
    } else if bare == "snow_block"@ {
        "snow"@
    } else if bare == "water"@ {
        "water_still"@
    } else if bare == "lava"@ {
        "lava_still"@
    } else {
        bare
    }
}

/// The texture on top of a block of this name.
pub open spec fn top_texture_name(name: Seq<char>) -> Seq<char> {
    if name == "minecraft:podzol"@ {
        "podzol_top"@
    } else if name == "minecraft:grass_block"@ {
        "grass_block_top"@
    } else {
        texture_name(name)
    }
}

/// The texture on the sides and the bottom of a block of this name.
pub open spec fn side_texture_name(name: Seq<char>) -> Seq<char> {
    if name == "minecraft:podzol"@ {
        "podzol_side"@
    } else if name == "minecraft:grass_block"@ {
        "grass_block_side"@
    } else {
        texture_name(name)
    }
}

/// Computes [`is_cross_name`].
fn names_cross(name: &str) -> (cross: bool)
    ensures
        cross == is_cross_name(name@),
{
    str_eq(name, "minecraft:grass") || str_eq(name, "minecraft:fern") || str_eq(
        name,
        "minecraft:dead_bush",
    ) || str_eq(name, "minecraft:brown_mushroom") || str_eq(name, "minecraft:red_mushroom")
        || str_eq(name, "minecraft:small_dripleaf_stem_bottom") || str_eq(
        name,
        "minecraft:small_dripleaf_stem_top",
    ) || str_eq(name, "minecraft:big_dripleaf_stem") || str_eq(name, "minecraft:cave_vines")
        || str_eq(name, "minecraft:cave_vines_lit") || str_eq(name, "minecraft:cave_vines_plant")
        || str_eq(name, "minecraft:cave_vines_plant_lit")
}

/// Computes [`is_flat_name`].
fn names_flat(name: &str) -> (flat: bool)
    ensures
        flat == is_flat_name(name@),
{
    str_eq(name, "minecraft:glow_lichen") || str_eq(name, "minecraft:vine") || str_eq(
        name,
        "minecraft:sculk_vein",
    )
}

/// Computes [`flag`] on the properties of `block`.
fn has_flag(block: &Block, key: &str) -> (set: bool)
    ensures
        set == flag(block@.properties, key@),
{
    match block.property(key) {
        Some(value) => str_eq(value, "true"),
        None => false,
    }
}

impl BlockModel {
    /// Computes [`model_of`].
    pub fn of(block: Block) -> (model: BlockModel)
        ensures
            model == model_of(block@),
    {
        let name = block.name();
        if str_eq(name, "minecraft:air") {
            BlockModel::Empty
        } else if str_eq(name, "minecraft:cave_air") {
            BlockModel::Empty
        } else if str_eq(name, "minecraft:spruce_leaves") {
            BlockModel::TransparentBlock
        } else if names_cross(name) {
            BlockModel::Cross
        } else if names_flat(name) {
            BlockModel::FlatDirectional {
                north: has_flag(&block, "north"),
                south: has_flag(&block, "south"),
                east: has_flag(&block, "east"),
                west: has_flag(&block, "west"),
                up: has_flag(&block, "up"),
                down: has_flag(&block, "down"),
            }
        } else {
            BlockModel::SolidBlock
        }
    }
}

/// Computes [`hides_neighbours`].
pub fn is_solid(block: Block) -> (solid: bool)
    ensures
        solid == hides_neighbours(block@),
{
    BlockModel::of(block) == BlockModel::SolidBlock
}

/// Computes [`texture_name`] on the name of `block`.
pub fn block_texture_name(block: Block) -> (texture: &'static str)
    ensures
        texture@ == texture_name(block@.name),
{
    let name = block.name();
    let bare = match strip_prefix(name, "minecraft:") {
        Some(rest) => {
            assert(rest@ =~= name@.skip("minecraft:"@.len() as int));
            assert("minecraft:"@.is_prefix_of(name@));
            rest
        },
        None => name,
    };
    if str_eq(bare, "infested_stone") {
        "stone"
    } else if str_eq(bare, "infested_deepslate") {
        "deepslate"
    } else if str_eq(bare, "snow_block") {
        "snow"
    } else if str_eq(bare, "water") {
        "water_still"
    } else if str_eq(bare, "lava") {
        "lava_still"
    } else {
        bare
    }
}

/// Computes [`top_texture_name`] on the name of `block`.
pub fn block_top_texture_name(block: Block) -> (texture: &'static str)
    ensures
        texture@ == top_texture_name(block@.name),
{
    let name = block.name();
    if str_eq(name, "minecraft:podzol") {
        "podzol_top"
    } else if str_eq(name, "minecraft:grass_block") {
        "grass_block_top"
    } else {
        block_texture_name(block)
    }
}

/// Computes [`side_texture_name`] on the name of `block`.
pub fn block_front_side_texture_name(block: Block) -> (texture: &'static str)
    ensures
        texture@ == side_texture_name(block@.name),
{
    let name = block.name();
    if str_eq(name, "minecraft:podzol") {
        "podzol_side"
    } else if str_eq(name, "minecraft:grass_block") {
        "grass_block_side"
    } else {
        block_texture_name(block)
    }
}

} // verus!
