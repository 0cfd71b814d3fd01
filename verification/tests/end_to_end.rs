use std::collections::HashMap;
use std::io::Cursor;

use nbt::{Blob, Value};
use voxel_mesh::block::Block;
use voxel_mesh::chunk::{BlockStates, Chunk, Section};
use voxel_mesh::coords::{Area, BlockPos};
use voxel_mesh::mesh::Mesh;
use voxel_mesh::region::Region;
use voxel_mesh::world::World;

fn compound(entries: Vec<(&str, Value)>) -> Value {
    let mut map = HashMap::new();
    for (name, value) in entries {
        map.insert(name.to_string(), value);
    }
    Value::Compound(map)
}

/// The compressed record of a chunk whose lowest section holds stone at
/// `(0, 0, 0)` and air everywhere else.
fn stone_in_the_corner() -> Vec<u8> {
    let mut data = vec![0i64; 256];
    data[0] = 1;
    let mut sections = vec![compound(vec![
        (
            "block_states",
            compound(vec![
                (
                    "palette",
                    Value::List(vec![
                        compound(vec![("Name", Value::String("minecraft:air".to_string()))]),
                        compound(vec![("Name", Value::String("minecraft:stone".to_string()))]),
                    ]),
                ),
                ("data", Value::LongArray(data)),
            ]),
        ),
        ("Y", Value::Byte(-4)),
    ])];
    for y in -3..20 {
        sections.push(compound(vec![("Y", Value::Byte(y))]));
    }
    let mut blob = Blob::new();
    if let Err(error) = blob.insert("sections", Value::List(sections)) {
        panic!("{error}");
    }
    let mut payload = Vec::new();
    if let Err(error) = blob.to_zlib_writer(&mut payload) {
        panic!("{error}");
    }
    payload
}

/// A region file that holds `payload` as the record of its first slot.
fn region_file(payload: &[u8]) -> Vec<u8> {
    let mut file = vec![0u8; 8192];
    file[0..4].copy_from_slice(&[0, 0, 2, 1]);
    file.extend_from_slice(&(payload.len() as u32 + 1).to_be_bytes());
    file.push(2);
    file.extend_from_slice(payload);
    file.resize(3 * 4096, 0);
    file
}

fn text(value: Option<&Value>) -> Option<String> {
    match value {
        Some(Value::String(text)) => Some(text.clone()),
        _ => None,
    }
}

fn bytes(value: Option<&Value>) -> Vec<i8> {
    match value {
        Some(Value::ByteArray(bytes)) => bytes.clone(),
        _ => Vec::new(),
    }
}

fn block(entry: &Value) -> Block {
    let Value::Compound(entry) = entry else {
        panic!("a palette entry is a compound");
    };
    let mut properties = Vec::new();
    if let Some(Value::Compound(map)) = entry.get("Properties") {
        for (key, value) in map {
            properties.push((key.clone(), text(Some(value)).unwrap_or_default()));
        }
        properties.sort();
    }
    Block::new(text(entry.get("Name")).unwrap_or_default(), properties)
}

fn section(value: &Value) -> Section {
    let Value::Compound(fields) = value else {
        panic!("a section is a compound");
    };
    let block_states = match fields.get("block_states") {
        Some(Value::Compound(states)) => {
            let palette = match states.get("palette") {
                Some(Value::List(entries)) => entries.iter().map(block).collect(),
                _ => panic!("block states have a palette"),
            };
            let data = match states.get("data") {
                Some(Value::LongArray(words)) => Some(words.clone()),
                _ => None,
            };
            match BlockStates::new(palette, data) {
                Ok(states) => states,
                Err(error) => panic!("{error:?}"),
            }
        }
        _ => BlockStates::default(),
    };
    Section {
        block_states,
        block_light: bytes(fields.get("BlockLight")),
        sky_light: bytes(fields.get("SkyLight")),
    }
}

fn chunk(payload: &[u8]) -> Chunk {
    let blob = match Blob::from_zlib_reader(&mut Cursor::new(payload)) {
        Ok(blob) => blob,
        Err(error) => panic!("{error}"),
    };
    let sections = match blob.get("sections") {
        Some(Value::List(sections)) => sections.iter().map(section).collect(),
        _ => panic!("a chunk has sections"),
    };
    match Chunk::new(sections) {
        Ok(chunk) => chunk,
        Err(error) => panic!("{error:?}"),
    }
}

fn world(file: &[u8], area: &Area) -> World {
    let payloads = match Region::payloads(file, area, 0, 0) {
        Ok(payloads) => payloads,
        Err(error) => panic!("{error:?}"),
    };
    let chunks = payloads.iter().map(|payload| payload.map(chunk)).collect();
    let mut world = World::new();
    match Region::new(chunks) {
        Ok(region) => world.insert(0, 0, region),
        Err(error) => panic!("{error:?}"),
    }
    world
}

#[test]
fn a_region_file_with_one_stone_block_gives_a_world_and_a_mesh_of_six_faces() {
    let file = region_file(&stone_in_the_corner());
    let area = Area { start_x: 0, start_z: 0, end_x: 16, end_z: 16 };
    let world = world(&file, &area);
    let stone = Block::new("minecraft:stone".to_string(), Vec::new());
    assert!(world.block_at(BlockPos { x: 0, y: -64, z: 0 }) == Some(stone));
    assert!(world.block_at(BlockPos { x: 1, y: -64, z: 0 }) == Some(Block::air()));
    assert!(world.block_at(BlockPos { x: 0, y: -48, z: 0 }) == Some(Block::air()));
    assert!(world.block_at(BlockPos { x: 16, y: -64, z: 0 }).is_none());
    assert!(world.block_at(BlockPos { x: -1, y: -64, z: 0 }).is_none());
    assert_eq!(world.light_at(BlockPos { x: 0, y: -64, z: 0 }), 0);
    let mesh = match Mesh::build(&world, &area) {
        Ok(mesh) => mesh,
        Err(error) => panic!("{error:?}"),
    };
    assert_eq!(mesh.vertices.len(), 24);
    assert_eq!(mesh.indices.len(), 36);
    assert_eq!(mesh.texture_names.iter().copied().collect::<Vec<_>>(), vec!["stone"]);
}

#[test]
fn a_chunk_outside_the_area_is_not_decoded() {
    let file = region_file(&[1, 2, 3]);
    let area = Area { start_x: 16, start_z: 0, end_x: 32, end_z: 16 };
    let world = world(&file, &area);
    assert!(world.block_at(BlockPos { x: 0, y: -64, z: 0 }).is_none());
    assert!(world.block_at(BlockPos { x: 16, y: -64, z: 0 }).is_none());
    assert!(world.region(0, 0).is_some());
}
