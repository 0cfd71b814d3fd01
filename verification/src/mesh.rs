//! The mesh of a block volume: one quad for each face that can be seen,
//! textured by slot and lit per vertex.

use indexmap::IndexSet;
use vstd::prelude::*;

use crate::block::Block;
use crate::coords::{in_grid, Area, BlockPos, MAX_Y, MIN_Y};
use crate::light::{lit_vertex, smoothed_light_of};
use crate::model::{
    block_front_side_texture_name, block_texture_name, block_top_texture_name, hides_neighbours,
    is_solid, model_of, side_texture_name, texture_name, top_texture_name, BlockModel,
};
use crate::quad::{
    cross_quad, cube_quad, flat_quad, quad_indices, quad_vertices, Face, Quad, Vertex, Winding,
    MAX_VERTICES,
};
use crate::world::World;

verus! {

/// `indexmap::IndexSet`, a set that keeps its items in the order in which
/// they were inserted. Nothing is known of what is inside one but through
/// [`set_names`].
#[verifier::external_type_specification]
#[verifier::external_body]
#[verifier::reject_recursive_types(T)]
#[verifier::reject_recursive_types(S)]
pub struct ExIndexSet<T, S>(IndexSet<T, S>);

/// The names that a set of texture names holds, in the order in which they
/// were first inserted.
pub uninterp spec fn set_names(set: IndexSet<&'static str>) -> Seq<Seq<char>>;

/// `IndexSet::new`: a set that holds nothing.
#[verifier::external_body]
fn empty_names() -> (set: IndexSet<&'static str>)
    ensures
        set_names(set) == Seq::<Seq<char>>::empty(),
{
    IndexSet::new()
}

/// `IndexSet::insert_full`: the index of `name` in the set. A name that the
/// set holds keeps its index and the set stays as it is; a new name goes to
/// the end.
#[verifier::external_body]
fn insert_name(set: &mut IndexSet<&'static str>, name: &'static str) -> (slot: usize)
    ensures
        match set_names(*old(set)).index_of_first(name@) {
            Some(index) => slot == index && set_names(*final(set)) == set_names(*old(set)),
            None => slot == set_names(*old(set)).len() && set_names(*final(set)) == set_names(
                *old(set),
            ).push(name@),
        },
{
    set.insert_full(name).0
}

/// Why a mesh cannot be built.
#[derive(Clone, Copy, Debug, PartialEq, Eq, Structural)]
pub enum MeshError {
    /// The volume needs more vertices than 32-bit indices can tell apart.
    TooManyVertices,
}

/// Whether the block at `(x, y, z)` hides the faces that touch it: a solid
/// cube does, and nothing else, least of all a place without data.
pub open spec fn hides(world: World, x: int, y: int, z: int) -> bool {
    &&& in_grid(x)
    &&& in_grid(y)
    &&& in_grid(z)
    &&& match world.spec_block_at(BlockPos { x: x as i32, y: y as i32, z: z as i32 }) {
        Some(block) => hides_neighbours(block@),
        None => false,
    }
}

/// Whether the face `face` of the voxel at `pos` can be seen: whether the
/// block that touches it there does not hide it.
pub open spec fn seen(world: World, pos: BlockPos, face: Face) -> bool {
    let x = pos.x as int;
    let y = pos.y as int;
    let z = pos.z as int;
    match face {
        Face::West => !hides(world, x - 1, y, z),
        Face::East => !hides(world, x + 1, y, z),
        Face::Bottom => !hides(world, x, y - 1, z),
        Face::Top => !hides(world, x, y + 1, z),
        Face::North => !hides(world, x, y, z - 1),
        Face::South => !hides(world, x, y, z + 1),
    }
}

/// One if `flag` holds, else zero.
pub open spec fn one_if(flag: bool) -> int {
    if flag {
        1
    } else {
        0
    }
}

/// How many of the six faces of the voxel at `pos` can be seen.
pub open spec fn faces_seen(world: World, pos: BlockPos) -> int {
    one_if(seen(world, pos, Face::West)) + one_if(seen(world, pos, Face::East)) + one_if(
        seen(world, pos, Face::Bottom),
    ) + one_if(seen(world, pos, Face::Top)) + one_if(seen(world, pos, Face::North)) + one_if(
        seen(world, pos, Face::South),
    )
}

/// How many of the six flags of a flat model are set.
pub open spec fn flags_set(model: BlockModel) -> int
    recommends
        model is FlatDirectional,
{
    one_if(model->north) + one_if(model->south) + one_if(model->east) + one_if(model->west)
        + one_if(model->up) + one_if(model->down)
}

/// What a mesh holds.
pub struct MeshView {
    /// The corners of the quads, four for each quad, in the order in which
    /// the quads were added.
    pub vertices: Seq<Vertex>,
    /// The corners of the triangles, three for each, as indices into
    /// `vertices`.
    pub indices: Seq<u32>,
    /// The names of the textures, in the order in which they were first
    /// registered; a vertex names its texture by its index here.
    pub texture_names: Seq<Seq<char>>,
}

impl MeshView {
    /// A mesh that holds nothing.
    pub open spec fn empty() -> MeshView {
        MeshView { vertices: Seq::empty(), indices: Seq::empty(), texture_names: Seq::empty() }
    }

    /// The slot that registering `name` returns: where the name is in the
    /// list, or the end of the list for a new name.
    pub open spec fn slot_of(self, name: Seq<char>) -> nat {
        match self.texture_names.index_of_first(name) {
            Some(index) => index as nat,
            None => self.texture_names.len(),
        }
    }

    /// The mesh after `name` was registered: a new name is added at the end
    /// of the list.
    pub open spec fn with_texture(self, name: Seq<char>) -> MeshView {
        match self.texture_names.index_of_first(name) {
            Some(_) => self,
            None => MeshView { texture_names: self.texture_names.push(name), ..self },
        }
    }

    /// The mesh after `quad` was added: four more vertices, and the indices
    /// of its triangles, which count from the first of the four.
    #[verifier::opaque]
    pub open spec fn with_quad(self, quad: Quad) -> MeshView {
        MeshView {
            vertices: self.vertices + quad_vertices(quad),
            indices: self.indices + quad_indices(self.vertices.len() as int, quad.winding),
            ..self
        }
    }

    /// The mesh after `quad` was added, if `seen` holds.
    pub open spec fn with_face(self, seen: bool, quad: Quad) -> MeshView {
        if seen {
            self.with_quad(quad)
        } else {
            self
        }
    }

    /// Whether no vertex is lit more than a face can be.
    pub open spec fn tinted(self) -> bool {
        forall|i: int| 0 <= i < self.vertices.len() ==> (#[trigger] self.vertices[i]).light_level <= 100
    }

    /// The mesh after the cube of a block called `name` at `pos` was added.
    ///
    /// The side texture is registered first, whether or not a face is seen.
    /// Then each face that can be seen is added, in the order west, east,
    /// bottom, top, north, south; the top face registers the top texture
    /// when it is added.
    pub open spec fn with_cube(self, world: World, pos: BlockPos, name: Seq<char>) -> MeshView {
        let side_name = side_texture_name(name);
        let top_name = top_texture_name(name);
        let side = self.slot_of(side_name) as usize;
        let below = self.with_texture(side_name).with_face(
            seen(world, pos, Face::West),
            cube_quad(pos, Face::West, side),
        ).with_face(seen(world, pos, Face::East), cube_quad(pos, Face::East, side)).with_face(
            seen(world, pos, Face::Bottom),
            cube_quad(pos, Face::Bottom, side),
        );
        let top = below.slot_of(top_name) as usize;
        let above = if seen(world, pos, Face::Top) {
            below.with_texture(top_name).with_quad(cube_quad(pos, Face::Top, top))
        } else {
            below
        };
        above.with_face(seen(world, pos, Face::North), cube_quad(pos, Face::North, side)).with_face(
            seen(world, pos, Face::South),
            cube_quad(pos, Face::South, side),
        )
    }

    /// The mesh after the cross of a block called `name` at `pos` was
    /// added: its texture, then its two quads.
    pub open spec fn with_cross(self, pos: BlockPos, name: Seq<char>) -> MeshView {
        let slot = self.slot_of(texture_name(name)) as usize;
        self.with_texture(texture_name(name)).with_quad(cross_quad(pos, false, slot)).with_quad(
            cross_quad(pos, true, slot),
        )
    }

    /// The mesh after the flat quads of a block called `name` at `pos` were
    /// added: its texture, then one quad inside each face whose flag is
    /// set, in the order north, south, east, west, up, down.
    pub open spec fn with_flat(self, pos: BlockPos, name: Seq<char>, model: BlockModel) -> MeshView
        recommends
            model is FlatDirectional,
    {
        let slot = self.slot_of(texture_name(name)) as usize;
        self.with_texture(texture_name(name)).with_face(
            model->north,
            flat_quad(pos, Face::North, slot),
        ).with_face(model->south, flat_quad(pos, Face::South, slot)).with_face(
            model->east,
            flat_quad(pos, Face::East, slot),
        ).with_face(model->west, flat_quad(pos, Face::West, slot)).with_face(
            model->up,
            flat_quad(pos, Face::Top, slot),
        ).with_face(model->down, flat_quad(pos, Face::Bottom, slot))
    }

    /// The mesh after the voxel at `pos` was added: nothing where the world
    /// has no data or the block is drawn as nothing, else the geometry of
    /// the block's model.
    pub open spec fn with_voxel(self, world: World, pos: BlockPos) -> MeshView {
        match world.spec_block_at(pos) {
            None => self,
            Some(block) => match model_of(block@) {
                BlockModel::Empty => self,
                BlockModel::SolidBlock => self.with_cube(world, pos, block@.name),
                BlockModel::TransparentBlock => self.with_cube(world, pos, block@.name),
                BlockModel::Cross => self.with_cross(pos, block@.name),
                BlockModel::FlatDirectional { .. } => self.with_flat(
                    pos,
                    block@.name,
                    model_of(block@),
                ),
            },
        }
    }

    /// The mesh after the voxels from `x` up to `end_x` of the row
    /// `(y, z)` were added, in rising order.
    pub open spec fn with_row(self, world: World, y: int, z: int, x: int, end_x: int) -> MeshView
        decreases end_x - x,
    {
        if x >= end_x {
            self
        } else {
            self.with_voxel(world, BlockPos { x: x as i32, y: y as i32, z: z as i32 }).with_row(
                world,
                y,
                z,
                x + 1,
                end_x,
            )
        }
    }

    /// The mesh after the rows from `z` up to the area's end of the layer
    /// `y` were added, in rising order.
    pub open spec fn with_layer(self, world: World, area: Area, y: int, z: int) -> MeshView
        decreases area.end_z - z,
    {
        if z >= area.end_z {
            self
        } else {
            self.with_row(world, y, z, area.start_x as int, area.end_x as int).with_layer(
                world,
                area,
                y,
                z + 1,
            )
        }
    }

    /// The mesh after the layers from `y` up to `end_y` were added, in
    /// rising order.
    pub open spec fn with_layers(self, world: World, area: Area, y: int, end_y: int) -> MeshView
        decreases end_y - y,
    {
        if y >= end_y {
            self
        } else {
            self.with_layer(world, area, y, area.start_z as int).with_layers(
                world,
                area,
                y + 1,
                end_y,
            )
        }
    }

    /// The mesh with the light around each vertex worked in.
    pub open spec fn lit(self, world: World) -> MeshView {
        MeshView {
            vertices: Seq::new(self.vertices.len(), |i: int| lit_vertex(world, self.vertices[i])),
            ..self
        }
    }
}

/// The mesh of the blocks of `area`, before the light at each vertex is
/// worked in: layer by layer upward from the lowest height, each layer row
/// by row along z, each row block by block along x.
pub open spec fn unlit(world: World, area: Area) -> MeshView {
    MeshView::empty().with_layers(world, area, -64, 320)
}

/// The mesh of the blocks of `area`.
pub open spec fn built(world: World, area: Area) -> MeshView {
    unlit(world, area).lit(world)
}

/// A quad adds four vertices, and six indices or, with triangles on both
/// sides, twelve; it adds no texture name.
pub proof fn lemma_quad_counts(mesh: MeshView, quad: Quad)
    ensures
        mesh.with_quad(quad).vertices.len() == mesh.vertices.len() + 4,
        mesh.with_quad(quad).indices.len() == mesh.indices.len() + if quad.winding
            == Winding::Both {
            12int
        } else {
            6int
        },
        mesh.with_quad(quad).texture_names == mesh.texture_names,
{
    reveal(MeshView::with_quad);
}

/// A face that is seen adds one quad, and one that is not adds nothing.
pub proof fn lemma_face_counts(mesh: MeshView, shown: bool, quad: Quad)
    requires
        quad.winding != Winding::Both,
    ensures
        mesh.with_face(shown, quad).vertices.len() == mesh.vertices.len() + 4 * one_if(shown),
        mesh.with_face(shown, quad).indices.len() == mesh.indices.len() + 6 * one_if(shown),
        mesh.with_face(shown, quad).texture_names == mesh.texture_names,
{
    lemma_quad_counts(mesh, quad);
}

/// A cube gets one quad, of four vertices and six indices, for each of its
/// faces that can be seen: six where no solid block touches it, and one
/// fewer for each that does.
pub proof fn lemma_cube_has_a_quad_for_each_face_seen(
    mesh: MeshView,
    world: World,
    pos: BlockPos,
    name: Seq<char>,
)
    ensures
        0 <= faces_seen(world, pos) <= 6,
        mesh.with_cube(world, pos, name).vertices.len() == mesh.vertices.len() + 4 * faces_seen(
            world,
            pos,
        ),
        mesh.with_cube(world, pos, name).indices.len() == mesh.indices.len() + 6 * faces_seen(
            world,
            pos,
        ),
{
    let side_name = side_texture_name(name);
    let top_name = top_texture_name(name);
    let side = mesh.slot_of(side_name) as usize;
    let start = mesh.with_texture(side_name);
    let west = start.with_face(seen(world, pos, Face::West), cube_quad(pos, Face::West, side));
    lemma_face_counts(start, seen(world, pos, Face::West), cube_quad(pos, Face::West, side));
    let east = west.with_face(seen(world, pos, Face::East), cube_quad(pos, Face::East, side));
    lemma_face_counts(west, seen(world, pos, Face::East), cube_quad(pos, Face::East, side));
    let below = east.with_face(seen(world, pos, Face::Bottom), cube_quad(pos, Face::Bottom, side));
    lemma_face_counts(east, seen(world, pos, Face::Bottom), cube_quad(pos, Face::Bottom, side));
    let top = below.slot_of(top_name) as usize;
    let above = if seen(world, pos, Face::Top) {
        below.with_texture(top_name).with_quad(cube_quad(pos, Face::Top, top))
    } else {
        below
    };
    lemma_quad_counts(below.with_texture(top_name), cube_quad(pos, Face::Top, top));
    let north = above.with_face(seen(world, pos, Face::North), cube_quad(pos, Face::North, side));
    lemma_face_counts(above, seen(world, pos, Face::North), cube_quad(pos, Face::North, side));
    lemma_face_counts(north, seen(world, pos, Face::South), cube_quad(pos, Face::South, side));
}

/// A cross has eight vertices and twenty-four indices.
pub proof fn lemma_cross_counts(mesh: MeshView, pos: BlockPos, name: Seq<char>)
    ensures
        mesh.with_cross(pos, name).vertices.len() == mesh.vertices.len() + 8,
        mesh.with_cross(pos, name).indices.len() == mesh.indices.len() + 24,
{
    let slot = mesh.slot_of(texture_name(name)) as usize;
    let start = mesh.with_texture(texture_name(name));
    lemma_quad_counts(start, cross_quad(pos, false, slot));
    lemma_quad_counts(start.with_quad(cross_quad(pos, false, slot)), cross_quad(pos, true, slot));
}

/// A flat model gets one quad, of four vertices and six indices, for each
/// of its flags that is set.
pub proof fn lemma_flat_has_a_quad_for_each_flag(
    mesh: MeshView,
    pos: BlockPos,
    name: Seq<char>,
    model: BlockModel,
)
    requires
        model is FlatDirectional,
    ensures
        0 <= flags_set(model) <= 6,
        mesh.with_flat(pos, name, model).vertices.len() == mesh.vertices.len() + 4 * flags_set(
            model,
        ),
        mesh.with_flat(pos, name, model).indices.len() == mesh.indices.len() + 6 * flags_set(
            model,
        ),
{
    let slot = mesh.slot_of(texture_name(name)) as usize;
    let start = mesh.with_texture(texture_name(name));
    let north = start.with_face(model->north, flat_quad(pos, Face::North, slot));
    lemma_face_counts(start, model->north, flat_quad(pos, Face::North, slot));
    let south = north.with_face(model->south, flat_quad(pos, Face::South, slot));
    lemma_face_counts(north, model->south, flat_quad(pos, Face::South, slot));
    let east = south.with_face(model->east, flat_quad(pos, Face::East, slot));
    lemma_face_counts(south, model->east, flat_quad(pos, Face::East, slot));
    let west = east.with_face(model->west, flat_quad(pos, Face::West, slot));
    lemma_face_counts(east, model->west, flat_quad(pos, Face::West, slot));
    let up = west.with_face(model->up, flat_quad(pos, Face::Top, slot));
    lemma_face_counts(west, model->up, flat_quad(pos, Face::Top, slot));
    lemma_face_counts(up, model->down, flat_quad(pos, Face::Bottom, slot));
}

/// Adding a voxel never takes a vertex away.
pub proof fn lemma_voxel_grows(mesh: MeshView, world: World, pos: BlockPos)
    ensures
        mesh.with_voxel(world, pos).vertices.len() >= mesh.vertices.len(),
{
    match world.spec_block_at(pos) {
        None => {},
        Some(block) => {
            lemma_cube_has_a_quad_for_each_face_seen(mesh, world, pos, block@.name);
            lemma_cross_counts(mesh, pos, block@.name);
            if model_of(block@) is FlatDirectional {
                lemma_flat_has_a_quad_for_each_flag(mesh, pos, block@.name, model_of(block@));
            }
        },
    }
}

/// Adding part of a row never takes a vertex away.
pub proof fn lemma_row_grows(mesh: MeshView, world: World, y: int, z: int, x: int, end_x: int)
    ensures
        mesh.with_row(world, y, z, x, end_x).vertices.len() >= mesh.vertices.len(),
    decreases end_x - x,
{
    if x < end_x {
        let pos = BlockPos { x: x as i32, y: y as i32, z: z as i32 };
        lemma_voxel_grows(mesh, world, pos);
        lemma_row_grows(mesh.with_voxel(world, pos), world, y, z, x + 1, end_x);
    }
}

/// Adding part of a layer never takes a vertex away.
pub proof fn lemma_layer_grows(mesh: MeshView, world: World, area: Area, y: int, z: int)
    ensures
        mesh.with_layer(world, area, y, z).vertices.len() >= mesh.vertices.len(),
    decreases area.end_z - z,
{
    if z < area.end_z {
        let row = mesh.with_row(world, y, z, area.start_x as int, area.end_x as int);
        lemma_row_grows(mesh, world, y, z, area.start_x as int, area.end_x as int);
        lemma_layer_grows(row, world, area, y, z + 1);
    }
}

/// Adding layers never takes a vertex away.
pub proof fn lemma_layers_grow(mesh: MeshView, world: World, area: Area, y: int, end_y: int)
    ensures
        mesh.with_layers(world, area, y, end_y).vertices.len() >= mesh.vertices.len(),
    decreases end_y - y,
{
    if y < end_y {
        let layer = mesh.with_layer(world, area, y, area.start_z as int);
        lemma_layer_grows(mesh, world, area, y, area.start_z as int);
        lemma_layers_grow(layer, world, area, y + 1, end_y);
    }
}

/// Computes [`hides`].
fn hidden(world: &World, x: i64, y: i64, z: i64) -> (hidden: bool)
    ensures
        hidden == hides(*world, x as int, y as int, z as int),
{
    if x < -0x8000_0000 || x > 0x7fff_ffff || y < -0x8000_0000 || y > 0x7fff_ffff || z
        < -0x8000_0000 || z > 0x7fff_ffff {
        return false;
    }
    match world.block_at(BlockPos { x: x as i32, y: y as i32, z: z as i32 }) {
        Some(block) => is_solid(block),
        None => false,
    }
}

/// Computes [`one_if`].
fn count_of(flag: bool) -> (count: u64)
    ensures
        count == one_if(flag),
{
    if flag {
        1
    } else {
        0
    }
}

/// Computes [`seen`].
fn is_seen(world: &World, pos: BlockPos, face: Face) -> (shown: bool)
    ensures
        shown == seen(*world, pos, face),
{
    let x: i64 = pos.x as i64;
    let y: i64 = pos.y as i64;
    let z: i64 = pos.z as i64;
    match face {
        Face::West => !hidden(world, x - 1, y, z),
        Face::East => !hidden(world, x + 1, y, z),
        Face::Bottom => !hidden(world, x, y - 1, z),
        Face::Top => !hidden(world, x, y + 1, z),
        Face::North => !hidden(world, x, y, z - 1),
        Face::South => !hidden(world, x, y, z + 1),
    }
}

/// A triangle mesh: vertices, triangle indices, and the names of the
/// textures that the vertices use.
pub struct Mesh {
    /// The corners of the quads, four for each.
    pub vertices: Vec<Vertex>,
    /// The corners of the triangles, three for each.
    pub indices: Vec<u32>,
    /// The texture names, each at the slot that vertices name it by.
    pub texture_names: IndexSet<&'static str>,
}

impl View for Mesh {
    type V = MeshView;

    open spec fn view(&self) -> MeshView {
        MeshView {
            vertices: self.vertices@,
            indices: self.indices@,
            texture_names: set_names(self.texture_names),
        }
    }
}

impl Mesh {
    /// A mesh that holds nothing.
    pub fn new() -> (mesh: Mesh)
        ensures
            mesh@ == MeshView::empty(),
    {
        Mesh { vertices: Vec::new(), indices: Vec::new(), texture_names: empty_names() }
    }

    /// Registers a texture name and returns its slot: the slot it already
    /// has, or the next free one.
    pub fn allocate_texture(&mut self, texture_name: &'static str) -> (slot: usize)
        ensures
            final(self)@ == old(self)@.with_texture(texture_name@),
            slot == old(self)@.slot_of(texture_name@),
    {
        insert_name(&mut self.texture_names, texture_name)
    }

    /// Registers the texture on top of `block`.
    fn block_top_texture_id(&mut self, block: Block) -> (slot: usize)
        ensures
            final(self)@ == old(self)@.with_texture(top_texture_name(block@.name)),
            slot == old(self)@.slot_of(top_texture_name(block@.name)),
    {
        self.allocate_texture(block_top_texture_name(block))
    }

    /// Registers the texture on the sides of `block`.
    fn block_front_side_texture_id(&mut self, block: Block) -> (slot: usize)
        ensures
            final(self)@ == old(self)@.with_texture(side_texture_name(block@.name)),
            slot == old(self)@.slot_of(side_texture_name(block@.name)),
    {
        self.allocate_texture(block_front_side_texture_name(block))
    }

    /// Whether the mesh has room for `quads` more quads.
    fn has_room(&self, quads: u64) -> (room: bool)
        requires
            quads <= 6,
        ensures
            room == (self@.vertices.len() + 4 * quads <= MAX_VERTICES),
    {
        self.vertices.len() as u64 <= MAX_VERTICES - 4 * quads
    }

    /// Adds a quad.
    fn push_quad(&mut self, quad: Quad)
        requires
            quad.bounded(),
            old(self)@.tinted(),
            old(self)@.vertices.len() + 4 <= MAX_VERTICES,
        ensures
            final(self)@ == old(self)@.with_quad(quad),
            final(self)@.tinted(),
            final(self)@.vertices.len() == old(self)@.vertices.len() + 4,
    {
        reveal(MeshView::with_quad);
        let count: usize = self.vertices.len();
        let c0: u32 = count as u32;
        let c1: u32 = c0 + 1;
        let c2: u32 = c0 + 2;
        let c3: u32 = c0 + 3;
        self.vertices.push(quad.corner(false, false));
        self.vertices.push(quad.corner(true, false));
        self.vertices.push(quad.corner(false, true));
        self.vertices.push(quad.corner(true, true));
        match quad.winding {
            Winding::Forward => {
                self.indices.push(c0);
                self.indices.push(c1);
                self.indices.push(c2);
                self.indices.push(c1);
                self.indices.push(c3);
                self.indices.push(c2);
            },
            Winding::Reverse => {
                self.indices.push(c0);
                self.indices.push(c2);
                self.indices.push(c1);
                self.indices.push(c1);
                self.indices.push(c2);
                self.indices.push(c3);
            },
            Winding::Both => {
                self.indices.push(c0);
                self.indices.push(c1);
                self.indices.push(c3);
                self.indices.push(c0);
                self.indices.push(c3);
                self.indices.push(c2);
                self.indices.push(c0);
                self.indices.push(c3);
                self.indices.push(c1);
                self.indices.push(c0);
                self.indices.push(c2);
                self.indices.push(c3);
            },
        }
        proof {
            assert(self@.vertices =~= old(self)@.vertices + quad_vertices(quad));
            assert(self@.indices =~= old(self)@.indices + quad_indices(
                old(self)@.vertices.len() as int,
                quad.winding,
            ));
        }
    }

    /// Adds a quad if `shown` holds.
    fn push_face(&mut self, shown: bool, quad: Quad)
        requires
            quad.bounded(),
            quad.winding != Winding::Both,
            old(self)@.tinted(),
            old(self)@.vertices.len() + 4 * one_if(shown) <= MAX_VERTICES,
        ensures
            final(self)@ == old(self)@.with_face(shown, quad),
            final(self)@.tinted(),
            final(self)@.vertices.len() == old(self)@.vertices.len() + 4 * one_if(shown),
            final(self)@.texture_names == old(self)@.texture_names,
    {
        proof {
            lemma_face_counts(self@, shown, quad);
        }
        if shown {
            self.push_quad(quad);
        }
    }

    /// Adds the cube of `block` at `pos`.
    fn add_cube(&mut self, world: &World, pos: BlockPos, block: Block) -> (result: Result<
        (),
        MeshError,
    >)
        requires
            old(self)@.tinted(),
        ensures
            match result {
                Ok(()) => final(self)@ == old(self)@.with_cube(*world, pos, block@.name) && final(self)@.tinted(),
                Err(_) => old(self)@.with_cube(*world, pos, block@.name).vertices.len()
                    > MAX_VERTICES,
            },
    {
        let west = is_seen(world, pos, Face::West);
        let east = is_seen(world, pos, Face::East);
        let bottom = is_seen(world, pos, Face::Bottom);
        let top = is_seen(world, pos, Face::Top);
        let north = is_seen(world, pos, Face::North);
        let south = is_seen(world, pos, Face::South);
        let quads: u64 = count_of(west) + count_of(east) + count_of(bottom) + count_of(top)
            + count_of(north) + count_of(south);
        proof {
            lemma_cube_has_a_quad_for_each_face_seen(self@, *world, pos, block@.name);
        }
        if !self.has_room(quads) {
            return Err(MeshError::TooManyVertices);
        }
        let side = self.block_front_side_texture_id(block);
        self.push_face(west, Quad::on_cube(pos, Face::West, side));
        self.push_face(east, Quad::on_cube(pos, Face::East, side));
        self.push_face(bottom, Quad::on_cube(pos, Face::Bottom, side));
        if top {
            let slot = self.block_top_texture_id(block);
            self.push_quad(Quad::on_cube(pos, Face::Top, slot));
        }
        self.push_face(north, Quad::on_cube(pos, Face::North, side));
        self.push_face(south, Quad::on_cube(pos, Face::South, side));
        Ok(())
    }

    /// Adds the cross of `block` at `pos`.
    fn add_cross(&mut self, pos: BlockPos, block: Block) -> (result: Result<(), MeshError>)
        requires
            old(self)@.tinted(),
        ensures
            match result {
                Ok(()) => final(self)@ == old(self)@.with_cross(pos, block@.name) && final(self)@.tinted(),
                Err(_) => old(self)@.with_cross(pos, block@.name).vertices.len() > MAX_VERTICES,
            },
    {
        proof {
            lemma_cross_counts(self@, pos, block@.name);
        }
        if !self.has_room(2) {
            return Err(MeshError::TooManyVertices);
        }
        let slot = self.allocate_texture(block_texture_name(block));
        self.push_quad(Quad::across_diagonal(pos, false, slot));
        self.push_quad(Quad::across_diagonal(pos, true, slot));
        Ok(())
    }

    /// Adds the flat quads of `block` at `pos`.
    fn add_flat(&mut self, pos: BlockPos, block: Block, model: BlockModel) -> (result: Result<
        (),
        MeshError,
    >)
        requires
            old(self)@.tinted(),
            model is FlatDirectional,
        ensures
            match result {
                Ok(()) => final(self)@ == old(self)@.with_flat(pos, block@.name, model) && final(self)@.tinted(),
                Err(_) => old(self)@.with_flat(pos, block@.name, model).vertices.len()
                    > MAX_VERTICES,
            },
    {
        match model {
            BlockModel::FlatDirectional { north, south, east, west, up, down } => {
                let quads: u64 = count_of(north) + count_of(south) + count_of(east) + count_of(
                    west,
                ) + count_of(up) + count_of(down);
                proof {
                    lemma_flat_has_a_quad_for_each_flag(self@, pos, block@.name, model);
                }
                if !self.has_room(quads) {
                    return Err(MeshError::TooManyVertices);
                }
                let slot = self.allocate_texture(block_texture_name(block));
                self.push_face(north, Quad::inside_face(pos, Face::North, slot));
                self.push_face(south, Quad::inside_face(pos, Face::South, slot));
                self.push_face(east, Quad::inside_face(pos, Face::East, slot));
                self.push_face(west, Quad::inside_face(pos, Face::West, slot));
                self.push_face(up, Quad::inside_face(pos, Face::Top, slot));
                self.push_face(down, Quad::inside_face(pos, Face::Bottom, slot));
                Ok(())
            },
            _ => Ok(()),
        }
    }

    /// Adds the voxel at `pos`.
    fn add_voxel(&mut self, world: &World, pos: BlockPos) -> (result: Result<(), MeshError>)
        requires
            old(self)@.tinted(),
        ensures
            match result {
                Ok(()) => final(self)@ == old(self)@.with_voxel(*world, pos) && final(self)@.tinted(),
                Err(_) => old(self)@.with_voxel(*world, pos).vertices.len() > MAX_VERTICES,
            },
    {
        let block = match world.block_at(pos) {
            None => {
                return Ok(());
            },
            Some(block) => block,
        };
        let model = BlockModel::of(block);
        match model {
            BlockModel::Empty => Ok(()),
            BlockModel::SolidBlock => self.add_cube(world, pos, block),
            BlockModel::TransparentBlock => self.add_cube(world, pos, block),
            BlockModel::Cross => self.add_cross(pos, block),
            BlockModel::FlatDirectional { .. } => self.add_flat(pos, block, model),
        }
    }

    /// Adds the voxels of the row `(y, z)` of `area`.
    fn add_row(&mut self, world: &World, area: &Area, y: i32, z: i32) -> (result: Result<
        (),
        MeshError,
    >)
        requires
            old(self)@.tinted(),
        ensures
            match result {
                Ok(()) => final(self)@ == old(self)@.with_row(
                    *world,
                    y as int,
                    z as int,
                    area.start_x as int,
                    area.end_x as int,
                ) && final(self)@.tinted(),
                Err(_) => old(self)@.with_row(
                    *world,
                    y as int,
                    z as int,
                    area.start_x as int,
                    area.end_x as int,
                ).vertices.len() > MAX_VERTICES,
            },
    {
        let mut x: i32 = area.start_x;
        while x < area.end_x
            invariant
                self@.tinted(),
                self@.with_row(*world, y as int, z as int, x as int, area.end_x as int) == old(self)@.with_row(*world, y as int, z as int, area.start_x as int, area.end_x as int),
            decreases area.end_x - x,
        {
            let ghost before = self@;
            let pos = BlockPos { x, y, z };
            let added = self.add_voxel(world, pos);
            if added.is_err() {
                proof {
                    lemma_row_grows(
                        before.with_voxel(*world, pos),
                        *world,
                        y as int,
                        z as int,
                        x + 1,
                        area.end_x as int,
                    );
                }
                return added;
            }
            x = x + 1;
        }
        Ok(())
    }

    /// Adds the voxels of the layer `y` of `area`.
    fn add_layer(&mut self, world: &World, area: &Area, y: i32) -> (result: Result<(), MeshError>)
        requires
            old(self)@.tinted(),
        ensures
            match result {
                Ok(()) => final(self)@ == old(self)@.with_layer(
                    *world,
                    *area,
                    y as int,
                    area.start_z as int,
                ) && final(self)@.tinted(),
                Err(_) => old(self)@.with_layer(
                    *world,
                    *area,
                    y as int,
                    area.start_z as int,
                ).vertices.len() > MAX_VERTICES,
            },
    {
        let mut z: i32 = area.start_z;
        while z < area.end_z
            invariant
                self@.tinted(),
                self@.with_layer(*world, *area, y as int, z as int) == old(self)@.with_layer(
                    *world,
                    *area,
                    y as int,
                    area.start_z as int,
                ),
            decreases area.end_z - z,
        {
            let ghost before = self@;
            let added = self.add_row(world, area, y, z);
            if added.is_err() {
                proof {
                    lemma_layer_grows(
                        before.with_row(
                            *world,
                            y as int,
                            z as int,
                            area.start_x as int,
                            area.end_x as int,
                        ),
                        *world,
                        *area,
                        y as int,
                        z + 1,
                    );
                }
                return added;
            }
            z = z + 1;
        }
        Ok(())
    }

    /// Adds the voxels of `area`, from the lowest height to the highest.
    fn add_layers(&mut self, world: &World, area: &Area) -> (result: Result<(), MeshError>)
        requires
            old(self)@.tinted(),
        ensures
            match result {
                Ok(()) => final(self)@ == old(self)@.with_layers(*world, *area, -64, 320) && final(self)@.tinted(),
                Err(_) => old(self)@.with_layers(*world, *area, -64, 320).vertices.len()
                    > MAX_VERTICES,
            },
    {
        let mut y: i32 = MIN_Y;
        while y < MAX_Y
            invariant
                -64 <= y <= 320,
                self@.tinted(),
                self@.with_layers(*world, *area, y as int, 320) == old(self)@.with_layers(
                    *world,
                    *area,
                    -64,
                    320,
                ),
            decreases 320 - y,
        {
            let ghost before = self@;
            let added = self.add_layer(world, area, y);
            if added.is_err() {
                proof {
                    lemma_layers_grow(
                        before.with_layer(*world, *area, y as int, area.start_z as int),
                        *world,
                        *area,
                        y + 1,
                        320,
                    );
                }
                return added;
            }
            y = y + 1;
        }
        Ok(())
    }

    /// Works the light around each vertex into the light of its face.
    fn light_vertices(&mut self, world: &World)
        requires
            old(self)@.tinted(),
        ensures
            final(self)@ == old(self)@.lit(*world),
    {
        let mut i: usize = 0;
        while i < self.vertices.len()
            invariant
                i <= self.vertices.len(),
                self.vertices.len() == old(self).vertices.len(),
                self.indices == old(self).indices,
                self.texture_names == old(self).texture_names,
                old(self)@.tinted(),
                forall|j: int|
                    0 <= j < i ==> self.vertices[j] == lit_vertex(
                        *world,
                        #[trigger] old(self).vertices[j],
                    ),
                forall|j: int|
                    i <= j < self.vertices.len() ==> self.vertices[j] == #[trigger] old(self).vertices[j],
            decreases self.vertices.len() - i,
        {
            let vertex = self.vertices[i];
            assert(vertex == old(self)@.vertices[i as int]);
            let smooth: u32 = smoothed_light_of(world, vertex.pos);
            assert(vertex.light_level * smooth <= 14336000) by (nonlinear_arith)
                requires
                    vertex.light_level <= 100,
                    smooth <= 143360,
            ;
            let lit = Vertex {
                pos: vertex.pos,
                uv: vertex.uv,
                light_level: vertex.light_level * smooth,
                texture_index: vertex.texture_index,
            };
            self.vertices.set(i, lit);
            i = i + 1;
        }
        assert(self@.vertices =~= old(self)@.lit(*world).vertices);
    }

    /// Builds the mesh of `area`, starting from this one.
    fn inner_build_impl(self, world: &World, area: &Area) -> (result: Result<Mesh, MeshError>)
        requires
            self@.tinted(),
        ensures
            match result {
                Ok(mesh) => mesh@ == self@.with_layers(*world, *area, -64, 320).lit(*world)
                    && mesh@.vertices.len() <= MAX_VERTICES,
                Err(_) => self@.with_layers(*world, *area, -64, 320).vertices.len() > MAX_VERTICES,
            },
    {
        let mut mesh = self;
        match mesh.add_layers(world, area) {
            Err(error) => Err(error),
            Ok(()) => {
                if mesh.vertices.len() as u64 > MAX_VERTICES {
                    return Err(MeshError::TooManyVertices);
                }
                mesh.light_vertices(world);
                Ok(mesh)
            },
        }
    }

    /// Builds the mesh of the blocks of `area`: every height that chunks
    /// store, over the block columns of the area.
    ///
    /// The mesh cannot be built where it would have more vertices than
    /// 32-bit indices can tell apart.
    pub fn build(world: &World, area: &Area) -> (result: Result<Mesh, MeshError>)
        ensures
            result is Ok <==> built(*world, *area).vertices.len() <= MAX_VERTICES,
            result matches Ok(mesh) ==> mesh@ == built(*world, *area),
    {
        Mesh::new().inner_build_impl(world, area)
    }
}

/// Registering a name again returns the slot that it got the first time,
/// where the list holds it, and leaves the list as it is.
pub proof fn lemma_texture_slot_is_stable(mesh: MeshView, name: Seq<char>)
    ensures
        mesh.with_texture(name).slot_of(name) == mesh.slot_of(name),
        mesh.with_texture(name).with_texture(name) == mesh.with_texture(name),
        mesh.slot_of(name) < mesh.with_texture(name).texture_names.len(),
        mesh.with_texture(name).texture_names[mesh.slot_of(name) as int] == name,
{
    let names = mesh.texture_names;
    let after = mesh.with_texture(name).texture_names;
    names.index_of_first_ensures(name);
    after.index_of_first_ensures(name);
    if names.index_of_first(name) is None {
        assert(after[names.len() as int] == name);
        assert(after.contains(name));
        let found = after.index_of_first(name)->0;
        if found < names.len() {
            assert(names[found] == name);
            assert(names.contains(name));
        }
    }
}

/// Registering a name leaves every name that the list holds where it is:
/// the list grows at its end only, so it lists the names in the order in
/// which they were first registered.
pub proof fn lemma_texture_order_is_kept(mesh: MeshView, name: Seq<char>, other: Seq<char>)
    ensures
        mesh.texture_names.is_prefix_of(mesh.with_texture(other).texture_names),
        mesh.texture_names.contains(name) ==> mesh.with_texture(other).slot_of(name)
            == mesh.slot_of(name),
{
    let names = mesh.texture_names;
    let after = mesh.with_texture(other).texture_names;
    names.index_of_first_ensures(name);
    after.index_of_first_ensures(name);
    names.index_of_first_ensures(other);
    if names.contains(name) {
        let before = names.index_of_first(name)->0;
        assert(after[before] == name);
        assert(after.contains(name));
        let found = after.index_of_first(name)->0;
        if found < before {
            assert(names[found] == name);
        }
    }
}

/// Two meshes built of the same world and area hold the same vertices, the
/// same indices and the same texture names.
pub proof fn lemma_build_repeats(world: World, area: Area, first: Mesh, second: Mesh)
    requires
        first@ == built(world, area),
        second@ == built(world, area),
    ensures
        first@.vertices == second@.vertices,
        first@.indices == second@.indices,
        first@.texture_names == second@.texture_names,
{
}

} // verus!
