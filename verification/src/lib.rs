//! Decoding of voxel-world region files, point queries over the decoded
//! world, and construction of a lit triangle mesh from a block volume.

pub mod block;
pub mod chunk;
pub mod coords;
pub mod light;
pub mod mesh;
pub mod model;
pub mod palette;
pub mod properties;
pub mod quad;
pub mod region;
pub mod text;
pub mod world;
