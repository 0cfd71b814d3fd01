//! Quads: the faces that a mesh is made of, four vertices and two or four
//! triangles each.
//!
//! Positions are counted in sixteenths of a block, so that the corners of
//! every quad are whole numbers.

use vstd::prelude::*;

use crate::coords::BlockPos;

verus! {

/// Light on a face that looks up, in hundredths.
pub const TOP_LIGHT_LEVEL: u32 = 100;

/// Light on a face that looks along the z axis, in hundredths.
pub const FRONT_BACK_LIGHT_LEVEL: u32 = 85;

/// Light on a face that looks along the x axis, in hundredths.
pub const SIDE_LIGHT_LEVEL: u32 = 75;

/// Light on a face that looks down, in hundredths.
pub const BOTTOM_LIGHT_LEVEL: u32 = 60;

/// The most vertices that 32-bit indices can tell apart.
pub const MAX_VERTICES: u64 = 0x1_0000_0000;

/// A corner of a quad.
#[derive(Clone, Copy, Debug, PartialEq, Eq)]
pub struct Vertex {
    /// The position, in sixteenths of a block.
    pub pos: (i64, i64, i64),
    /// The texture coordinates, each 0 or 1.
    pub uv: (u8, u8),
    /// The light intensity, in parts of [`crate::light::LIGHT_SCALE`].
    pub light_level: u32,
    /// The slot of the texture in the mesh's list of texture names.
    pub texture_index: usize,
}

/// Which side of a quad its triangles face.
#[derive(Clone, Copy, Debug, PartialEq, Eq, Structural)]
pub enum Winding {
    /// Corners 0, 1, 2 and 1, 3, 2.
    Forward,
    /// Corners 0, 2, 1 and 1, 2, 3.
    Reverse,
    /// Four triangles, two for each side.
    Both,
}

/// A quad that is about to be added to a mesh: corner 0 at `origin`, corner
/// 1 `across` from it, corner 2 `upward` from it, corner 3 opposite.
#[derive(Clone, Copy, Debug, PartialEq, Eq)]
pub struct Quad {
    /// Corner 0, in sixteenths of a block.
    pub origin: (i64, i64, i64),
    /// From corner 0 to corner 1.
    pub across: (i64, i64, i64),
    /// From corner 0 to corner 2.
    pub upward: (i64, i64, i64),
    /// Whether the texture runs from right to left along `across`.
    pub mirrored: bool,
    /// Which side the triangles face.
    pub winding: Winding,
    /// The light on the face, in hundredths.
    pub tint: u32,
    /// The slot of the texture.
    pub texture_index: usize,
}

/// An axis of the block grid.
#[derive(Clone, Copy, Debug, PartialEq, Eq, Structural)]
pub enum Axis {
    X,
    Y,
    Z,
}

/// A face of a voxel, named by the side it is on: west and east along x,
/// bottom and top along y, north and south along z.
#[derive(Clone, Copy, Debug, PartialEq, Eq, Structural)]
pub enum Face {
    West,
    East,
    Bottom,
    Top,
    North,
    South,
}

/// A corner of `quad`: `right` and `high` say which one.
pub open spec fn corner(quad: Quad, right: bool, high: bool) -> Vertex {
    let a: int = if right {
        1
    } else {
        0
    };
    let b: int = if high {
        1
    } else {
        0
    };
    Vertex {
        pos: (
            (quad.origin.0 + a * quad.across.0 + b * quad.upward.0) as i64,
            (quad.origin.1 + a * quad.across.1 + b * quad.upward.1) as i64,
            (quad.origin.2 + a * quad.across.2 + b * quad.upward.2) as i64,
        ),
        uv: (
            if right == quad.mirrored {
                0u8
            } else {
                1u8
            },
            if high {
                0u8
            } else {
                1u8
            },
        ),
        light_level: quad.tint,
        texture_index: quad.texture_index,
    }
}

/// The four corners of `quad`, in the order in which a mesh lists them.
pub open spec fn quad_vertices(quad: Quad) -> Seq<Vertex> {
    seq![
        corner(quad, false, false),
        corner(quad, true, false),
        corner(quad, false, true),
        corner(quad, true, true),
    ]
}

/// The indices of the triangles of a quad whose corner 0 is vertex `first`.
pub open spec fn quad_indices(first: int, winding: Winding) -> Seq<u32> {
    let c0 = first as u32;
    let c1 = (first + 1) as u32;
    let c2 = (first + 2) as u32;
    let c3 = (first + 3) as u32;
    match winding {
        Winding::Forward => seq![c0, c1, c2, c1, c3, c2],
        Winding::Reverse => seq![c0, c2, c1, c1, c2, c3],
        Winding::Both => seq![c0, c1, c3, c0, c3, c2, c0, c3, c1, c0, c2, c3],
    }
}

/// The quad that cuts the voxel at `pos` square to `axis`, `offset`
/// sixteenths in from the voxel's low side.
pub open spec fn axis_quad(
    pos: BlockPos,
    axis: Axis,
    offset: int,
    winding: Winding,
    tint: u32,
    texture_index: usize,
) -> Quad {
    let x = 16 * pos.x;
    let y = 16 * pos.y;
    let z = 16 * pos.z;
    match axis {
        Axis::X => Quad {
            origin: ((x + offset) as i64, y as i64, z as i64),
            across: (0, 0, 16),
            upward: (0, 16, 0),
            mirrored: false,
            winding,
            tint,
            texture_index,
        },
        Axis::Y => Quad {
            origin: (x as i64, (y + offset) as i64, z as i64),
            across: (16, 0, 0),
            upward: (0, 0, 16),
            mirrored: false,
            winding,
            tint,
            texture_index,
        },
        Axis::Z => Quad {
            origin: (x as i64, y as i64, (z + offset) as i64),
            across: (16, 0, 0),
            upward: (0, 16, 0),
            mirrored: false,
            winding,
            tint,
            texture_index,
        },
    }
}

/// One of the two upright quads of a cross in the voxel at `pos`: the
/// first runs from the low corner to the far one, the second crosses it.
pub open spec fn cross_quad(pos: BlockPos, second: bool, texture_index: usize) -> Quad {
    Quad {
        origin: (
            (16 * pos.x + if second {
                16int
            } else {
                0int
            }) as i64,
            (16 * pos.y) as i64,
            (16 * pos.z) as i64,
        ),
        across: (
            if second {
                -16i64
            } else {
                16i64
            },
            0,
            16,
        ),
        upward: (0, 16, 0),
        mirrored: true,
        winding: Winding::Both,
        tint: FRONT_BACK_LIGHT_LEVEL,
        texture_index,
    }
}

/// The quad on the face `face` of a cube at `pos`, which looks away from
/// the cube.
pub open spec fn cube_quad(pos: BlockPos, face: Face, texture_index: usize) -> Quad {
    match face {
        Face::West => axis_quad(pos, Axis::X, 0, Winding::Forward, SIDE_LIGHT_LEVEL, texture_index),
        Face::East => axis_quad(
            pos,
            Axis::X,
            16,
            Winding::Reverse,
            SIDE_LIGHT_LEVEL,
            texture_index,
        ),
        Face::Bottom => axis_quad(
            pos,
            Axis::Y,
            0,
            Winding::Forward,
            BOTTOM_LIGHT_LEVEL,
            texture_index,
        ),
        Face::Top => axis_quad(pos, Axis::Y, 16, Winding::Reverse, TOP_LIGHT_LEVEL, texture_index),
        Face::North => axis_quad(
            pos,
            Axis::Z,
            0,
            Winding::Reverse,
            FRONT_BACK_LIGHT_LEVEL,
            texture_index,
        ),
        Face::South => axis_quad(
            pos,
            Axis::Z,
            16,
            Winding::Forward,
            FRONT_BACK_LIGHT_LEVEL,
            texture_index,
        ),
    }
}

/// The quad a sixteenth of a block inside the face `face` of the voxel at
/// `pos`, which looks into the voxel.
pub open spec fn flat_quad(pos: BlockPos, face: Face, texture_index: usize) -> Quad {
    match face {
        Face::North => axis_quad(
            pos,
            Axis::Z,
            1,
            Winding::Forward,
            FRONT_BACK_LIGHT_LEVEL,
            texture_index,
        ),
        Face::South => axis_quad(
            pos,
            Axis::Z,
            15,
            Winding::Reverse,
            FRONT_BACK_LIGHT_LEVEL,
            texture_index,
        ),
        Face::East => axis_quad(
            pos,
            Axis::X,
            15,
            Winding::Forward,
            SIDE_LIGHT_LEVEL,
            texture_index,
        ),
        Face::West => axis_quad(pos, Axis::X, 1, Winding::Reverse, SIDE_LIGHT_LEVEL, texture_index),
        Face::Top => axis_quad(
            pos,
            Axis::Y,
            15,
            Winding::Forward,
            BOTTOM_LIGHT_LEVEL,
            texture_index,
        ),
        Face::Bottom => axis_quad(
            pos,
            Axis::Y,
            1,
            Winding::Reverse,
            TOP_LIGHT_LEVEL,
            texture_index,
        ),
    }
}

/// The triangles of a quad name the quad's own four corners: indices from
/// the first corner's to three past it.
pub proof fn lemma_quad_indices_name_its_corners(first: int, winding: Winding, i: int)
    requires
        0 <= first,
        first + 4 <= MAX_VERTICES,
        0 <= i < quad_indices(first, winding).len(),
    ensures
        first <= quad_indices(first, winding)[i] <= first + 3,
{
}

impl Quad {
    /// Whether the corners of the quad are where a block volume can have
    /// them, and its light is one a face can have.
    pub open spec fn bounded(self) -> bool {
        &&& -0x10_0000_0000 <= self.origin.0 <= 0x10_0000_0000
        &&& -0x10_0000_0000 <= self.origin.1 <= 0x10_0000_0000
        &&& -0x10_0000_0000 <= self.origin.2 <= 0x10_0000_0000
        &&& -16 <= self.across.0 <= 16
        &&& -16 <= self.across.1 <= 16
        &&& -16 <= self.across.2 <= 16
        &&& -16 <= self.upward.0 <= 16
        &&& -16 <= self.upward.1 <= 16
        &&& -16 <= self.upward.2 <= 16
        &&& self.tint <= 100
    }

    /// Computes [`corner`].
    pub(crate) fn corner(&self, right: bool, high: bool) -> (vertex: Vertex)
        requires
            self.bounded(),
        ensures
            vertex == corner(*self, right, high),
            vertex.light_level <= 100,
    {
        let a: i64 = if right {
            1
        } else {
            0
        };
        let b: i64 = if high {
            1
        } else {
            0
        };
        Vertex {
            pos: (
                self.origin.0 + a * self.across.0 + b * self.upward.0,
                self.origin.1 + a * self.across.1 + b * self.upward.1,
                self.origin.2 + a * self.across.2 + b * self.upward.2,
            ),
            uv: (
                if right == self.mirrored {
                    0
                } else {
                    1
                },
                if high {
                    0
                } else {
                    1
                },
            ),
            light_level: self.tint,
            texture_index: self.texture_index,
        }
    }

    /// Computes [`axis_quad`].
    pub(crate) fn across_axis(
        pos: BlockPos,
        axis: Axis,
        offset: i64,
        winding: Winding,
        tint: u32,
        texture_index: usize,
    ) -> (quad: Quad)
        requires
            0 <= offset <= 16,
            tint <= 100,
        ensures
            quad == axis_quad(pos, axis, offset as int, winding, tint, texture_index),
            quad.bounded(),
    {
        let x: i64 = 16 * (pos.x as i64);
        let y: i64 = 16 * (pos.y as i64);
        let z: i64 = 16 * (pos.z as i64);
        match axis {
            Axis::X => Quad {
                origin: (x + offset, y, z),
                across: (0, 0, 16),
                upward: (0, 16, 0),
                mirrored: false,
                winding,
                tint,
                texture_index,
            },
            Axis::Y => Quad {
                origin: (x, y + offset, z),
                across: (16, 0, 0),
                upward: (0, 0, 16),
                mirrored: false,
                winding,
                tint,
                texture_index,
            },
            Axis::Z => Quad {
                origin: (x, y, z + offset),
                across: (16, 0, 0),
                upward: (0, 16, 0),
                mirrored: false,
                winding,
                tint,
                texture_index,
            },
        }
    }

    /// Computes [`cross_quad`].
    pub(crate) fn across_diagonal(pos: BlockPos, second: bool, texture_index: usize) -> (quad: Quad)
        ensures
            quad == cross_quad(pos, second, texture_index),
            quad.bounded(),
    {
        let x: i64 = 16 * (pos.x as i64);
        Quad {
            origin: (
                if second {
                    x + 16
                } else {
                    x
                },
                16 * (pos.y as i64),
                16 * (pos.z as i64),
            ),
            across: (
                if second {
                    -16
                } else {
                    16
                },
                0,
                16,
            ),
            upward: (0, 16, 0),
            mirrored: true,
            winding: Winding::Both,
            tint: FRONT_BACK_LIGHT_LEVEL,
            texture_index,
        }
    }

    /// Computes [`cube_quad`].
    pub(crate) fn on_cube(pos: BlockPos, face: Face, texture_index: usize) -> (quad: Quad)
        ensures
            quad == cube_quad(pos, face, texture_index),
            quad.bounded(),
            quad.winding != Winding::Both,
    {
        match face {
            Face::West => Quad::across_axis(
                pos,
                Axis::X,
                0,
                Winding::Forward,
                SIDE_LIGHT_LEVEL,
                texture_index,
            ),
            Face::East => Quad::across_axis(
                pos,
                Axis::X,
                16,
                Winding::Reverse,
                SIDE_LIGHT_LEVEL,
                texture_index,
            ),
            Face::Bottom => Quad::across_axis(
                pos,
                Axis::Y,
                0,
                Winding::Forward,
                BOTTOM_LIGHT_LEVEL,
                texture_index,
            ),
            Face::Top => Quad::across_axis(
                pos,
                Axis::Y,
                16,
                Winding::Reverse,
                TOP_LIGHT_LEVEL,
                texture_index,
            ),
            Face::North => Quad::across_axis(
                pos,
                Axis::Z,
                0,
                Winding::Reverse,
                FRONT_BACK_LIGHT_LEVEL,
                texture_index,
            ),
            Face::South => Quad::across_axis(
                pos,
                Axis::Z,
                16,
                Winding::Forward,
                FRONT_BACK_LIGHT_LEVEL,
                texture_index,
            ),
        }
    }

    /// Computes [`flat_quad`].
    pub(crate) fn inside_face(pos: BlockPos, face: Face, texture_index: usize) -> (quad: Quad)
        ensures
            quad == flat_quad(pos, face, texture_index),
            quad.bounded(),
            quad.winding != Winding::Both,
    {
        match face {
            Face::North => Quad::across_axis(
                pos,
                Axis::Z,
                1,
                Winding::Forward,
                FRONT_BACK_LIGHT_LEVEL,
                texture_index,
            ),
            Face::South => Quad::across_axis(
                pos,
                Axis::Z,
                15,
                Winding::Reverse,
                FRONT_BACK_LIGHT_LEVEL,
                texture_index,
            ),
            Face::East => Quad::across_axis(
                pos,
                Axis::X,
                15,
                Winding::Forward,
                SIDE_LIGHT_LEVEL,
                texture_index,
            ),
            Face::West => Quad::across_axis(
                pos,
                Axis::X,
                1,
                Winding::Reverse,
                SIDE_LIGHT_LEVEL,
                texture_index,
            ),
            Face::Top => Quad::across_axis(
                pos,
                Axis::Y,
                15,
                Winding::Forward,
                BOTTOM_LIGHT_LEVEL,
                texture_index,
            ),
            Face::Bottom => Quad::across_axis(
                pos,
                Axis::Y,
                1,
                Winding::Reverse,
                TOP_LIGHT_LEVEL,
                texture_index,
            ),
        }
    }
}

} // verus!
