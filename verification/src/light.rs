//! The light at a vertex: the light levels of the eight blocks around it,
//! each weighed by how near the vertex is to the middle of the block.
//!
//! Light is counted in parts of [`LIGHT_SCALE`], so that it is exact.

use vstd::prelude::*;

use crate::coords::{in_grid, BlockPos};
use crate::quad::Vertex;
use crate::world::World;

verus! {

/// What a vertex's `light_level` is counted in: hundredths of the face's
/// light, times the 4096 parts of the weights of the eight light samples
/// around the vertex, times the 20 that a sample is divided by.
pub const LIGHT_SCALE: u32 = 8_192_000;

/// The light that a vertex takes from the block at `(x, y, z)`: its light
/// level and five more, in twentieths. A place outside the grid has no
/// light.
pub open spec fn light_sample(world: World, x: int, y: int, z: int) -> int {
    if in_grid(x) && in_grid(y) && in_grid(z) {
        world.spec_light_at(BlockPos { x: x as i32, y: y as i32, z: z as i32 }) + 5
    } else {
        5
    }
}

/// The block that a coordinate in sixteenths lies in.
pub open spec fn cell_of(coordinate: int) -> int {
    coordinate / 16
}

/// How far a coordinate in sixteenths lies past the middle of a block, in
/// sixteenths: the part of the way from the block before the vertex's own
/// to the vertex's own that the vertex weighs their light by.
pub open spec fn part_of(coordinate: int) -> int {
    (coordinate - 8) % 16
}

/// `part` sixteenths of the way from `low` to `high`, times 16.
pub open spec fn blend(low: int, high: int, part: int) -> int {
    low * (16 - part) + high * part
}

/// The light at a vertex between the two blocks around it along x, in the
/// row `(y, z)`.
pub open spec fn light_along_x(world: World, pos: (i64, i64, i64), y: int, z: int) -> int {
    blend(
        light_sample(world, cell_of(pos.0 as int) - 1, y, z),
        light_sample(world, cell_of(pos.0 as int), y, z),
        part_of(pos.0 as int),
    )
}

/// The light at a vertex between the four blocks around it along x and z,
/// in the layer `y`.
pub open spec fn light_along_z(world: World, pos: (i64, i64, i64), y: int) -> int {
    blend(
        light_along_x(world, pos, y, cell_of(pos.2 as int) - 1),
        light_along_x(world, pos, y, cell_of(pos.2 as int)),
        part_of(pos.2 as int),
    )
}

/// The light at a vertex between the eight blocks around it, in parts of
/// 4096 times 20.
pub open spec fn smoothed_light(world: World, pos: (i64, i64, i64)) -> int {
    blend(
        light_along_z(world, pos, cell_of(pos.1 as int) - 1),
        light_along_z(world, pos, cell_of(pos.1 as int)),
        part_of(pos.1 as int),
    )
}

/// A vertex with the light around it worked into the light of its face.
pub open spec fn lit_vertex(world: World, vertex: Vertex) -> Vertex {
    Vertex {
        light_level: (vertex.light_level * smoothed_light(world, vertex.pos)) as u32,
        ..vertex
    }
}

/// Computes [`light_sample`].
fn sample(world: &World, x: i64, y: i64, z: i64) -> (level: u32)
    ensures
        level == light_sample(*world, x as int, y as int, z as int),
        5 <= level <= 35,
{
    if x < -0x8000_0000 || x > 0x7fff_ffff || y < -0x8000_0000 || y > 0x7fff_ffff || z
        < -0x8000_0000 || z > 0x7fff_ffff {
        return 5;
    }
    world.light_at(BlockPos { x: x as i32, y: y as i32, z: z as i32 }) as u32 + 5
}

/// Computes [`cell_of`].
fn cell(coordinate: i64) -> (cell: i64)
    ensures
        cell == cell_of(coordinate as int),
        -0x0800_0000_0000_0000 <= cell <= 0x0800_0000_0000_0000,
{
    let quotient: i64 = coordinate / 16;
    if coordinate % 16 < 0 {
        quotient - 1
    } else {
        quotient
    }
}

/// Computes [`part_of`].
fn part(coordinate: i64) -> (part: u32)
    ensures
        part == part_of(coordinate as int),
        part < 16,
{
    let remainder: i64 = coordinate % 16;
    let local: i64 = if remainder < 0 {
        remainder + 16
    } else {
        remainder
    };
    if local >= 8 {
        (local - 8) as u32
    } else {
        (local + 8) as u32
    }
}

/// Computes [`blend`].
fn blend_of(low: u32, high: u32, part: u32) -> (blended: u32)
    requires
        low <= 0x00ff_ffff,
        high <= 0x00ff_ffff,
        part <= 16,
    ensures
        blended == blend(low as int, high as int, part as int),
        blended <= 16 * low || blended <= 16 * high,
{
    assert(low * (16 - part) + high * part <= 16 * 0x00ff_ffff && (low * (16 - part) + high * part
        <= 16 * low || low * (16 - part) + high * part <= 16 * high) && low * (16 - part) >= 0
        && high * part >= 0 && low * (16 - part) <= 16 * 0x00ff_ffff) by (nonlinear_arith)
        requires
            0 <= low <= 0x00ff_ffff,
            0 <= high <= 0x00ff_ffff,
            0 <= part <= 16,
    ;
    low * (16 - part) + high * part
}

/// Computes [`light_along_x`].
fn light_along_x_of(world: &World, pos: (i64, i64, i64), y: i64, z: i64) -> (light: u32)
    ensures
        light == light_along_x(*world, pos, y as int, z as int),
        light <= 560,
{
    let x: i64 = cell(pos.0);
    blend_of(sample(world, x - 1, y, z), sample(world, x, y, z), part(pos.0))
}

/// Computes [`light_along_z`].
fn light_along_z_of(world: &World, pos: (i64, i64, i64), y: i64) -> (light: u32)
    ensures
        light == light_along_z(*world, pos, y as int),
        light <= 8960,
{
    let z: i64 = cell(pos.2);
    blend_of(
        light_along_x_of(world, pos, y, z - 1),
        light_along_x_of(world, pos, y, z),
        part(pos.2),
    )
}

/// Computes [`smoothed_light`].
pub(crate) fn smoothed_light_of(world: &World, pos: (i64, i64, i64)) -> (light: u32)
    ensures
        light == smoothed_light(*world, pos),
        light <= 143360,
{
    let y: i64 = cell(pos.1);
    blend_of(light_along_z_of(world, pos, y - 1), light_along_z_of(world, pos, y), part(pos.1))
}

} // verus!
