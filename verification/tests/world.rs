use voxel_mesh::block::Block;
use voxel_mesh::chunk::{BlockStates, Chunk, Section};
use voxel_mesh::coords::BlockPos;
use voxel_mesh::region::Region;
use voxel_mesh::world::World;

fn stone() -> Block {
    Block::new("minecraft:stone".to_string(), Vec::new())
}

fn dirt() -> Block {
    Block::new("minecraft:dirt".to_string(), Vec::new())
}

fn air_section() -> Section {
    Section {
        block_states: BlockStates::default(),
        block_light: Vec::new(),
        sky_light: Vec::new(),
    }
}

/// A section of air but for the voxels at `offsets`, which hold `block`.
fn section_with(block: Block, offsets: &[usize]) -> Section {
    let mut words = vec![0i64; 256];
    for offset in offsets {
        words[offset / 16] |= 1 << (4 * (offset % 16));
    }
    Section {
        block_states: BlockStates::new(vec![Block::air(), block], Some(words))
            .unwrap_or_default(),
        block_light: Vec::new(),
        sky_light: Vec::new(),
    }
}

fn chunk_of(mut section_at: impl FnMut(usize) -> Section) -> Chunk {
    match Chunk::new((0..24).map(|index| section_at(index)).collect()) {
        Ok(chunk) => chunk,
        Err(error) => panic!("{error:?}"),
    }
}

fn region_of(chunks: Vec<(usize, usize, Chunk)>) -> Region {
    let mut slots: Vec<Option<Chunk>> = (0..1024).map(|_| None).collect();
    for (x, z, chunk) in chunks {
        slots[32 * z + x] = Some(chunk);
    }
    match Region::new(slots) {
        Ok(region) => region,
        Err(error) => panic!("{error:?}"),
    }
}

fn at(x: i32, y: i32, z: i32) -> BlockPos {
    BlockPos { x, y, z }
}

#[test]
fn an_empty_world_has_no_block_and_no_light_anywhere() {
    let world = World::new();
    for pos in [
        at(0, 0, 0),
        at(-1, -64, -1),
        at(i32::MIN, i32::MIN, i32::MIN),
        at(i32::MAX, i32::MAX, i32::MAX),
        at(i32::MIN, 319, i32::MAX),
    ] {
        assert!(world.block_at(pos).is_none());
        assert_eq!(world.light_at(pos), 0);
    }
    assert!(world.region(0, 0).is_none());
}

#[test]
fn a_block_is_found_through_region_chunk_section_and_offset() {
    let mut world = World::new();
    let chunk = chunk_of(|index| match index {
        0 => section_with(stone(), &[0]),
        4 => section_with(dirt(), &[3 * 256 + 2 * 16 + 1]),
        23 => section_with(stone(), &[4095]),
        _ => air_section(),
    });
    world.insert(0, 0, region_of(vec![(0, 0, chunk)]));
    assert!(world.block_at(at(0, -64, 0)) == Some(stone()));
    assert!(world.block_at(at(1, -64, 0)) == Some(Block::air()));
    assert!(world.block_at(at(0, -63, 0)) == Some(Block::air()));
    assert!(world.block_at(at(1, 3, 2)) == Some(dirt()));
    assert!(world.block_at(at(2, 3, 1)) == Some(Block::air()));
    assert!(world.block_at(at(15, 319, 15)) == Some(stone()));
}

#[test]
fn a_position_without_data_has_no_block_and_no_light() {
    let mut world = World::new();
    let chunk = chunk_of(|_| Section {
        block_states: BlockStates::default(),
        block_light: vec![0x11; 2048],
        sky_light: vec![0x22; 2048],
    });
    world.insert(0, 0, region_of(vec![(0, 0, chunk)]));
    assert_eq!(world.light_at(at(0, -64, 0)), 3);
    assert_eq!(world.light_at(at(15, 319, 15)), 3);
    assert!(world.block_at(at(15, 319, 15)) == Some(Block::air()));
    // Above and below the heights that chunks store.
    for y in [-65, 320, i32::MIN, i32::MAX] {
        assert!(world.block_at(at(0, y, 0)).is_none());
        assert_eq!(world.light_at(at(0, y, 0)), 0);
    }
    // In a chunk slot that is empty.
    for (x, z) in [(16, 0), (0, 16), (511, 511)] {
        assert!(world.block_at(at(x, 0, z)).is_none());
        assert_eq!(world.light_at(at(x, 0, z)), 0);
    }
    // In a region that is not loaded.
    for (x, z) in [(-1, 0), (0, -1), (512, 0), (0, 512), (i32::MIN, i32::MAX)] {
        assert!(world.block_at(at(x, 0, z)).is_none());
        assert_eq!(world.light_at(at(x, 0, z)), 0);
    }
}

#[test]
fn a_block_just_below_zero_is_in_slot_31_of_the_region_before() {
    let mut world = World::new();
    let chunk = chunk_of(|index| match index {
        0 => section_with(stone(), &[15 * 256 + 15 * 16 + 15]),
        _ => air_section(),
    });
    world.insert(-1, -1, region_of(vec![(31, 31, chunk)]));
    assert!(world.block_at(at(-1, -49, -1)) == Some(stone()));
    assert!(world.block_at(at(-2, -49, -1)) == Some(Block::air()));
    assert!(world.block_at(at(-16, -64, -16)) == Some(Block::air()));
    assert!(world.block_at(at(-17, -64, -16)).is_none());
    assert!(world.block_at(at(0, -49, 0)).is_none());
    assert!(world.block_at(at(-1, -49, 0)).is_none());
}

#[test]
fn the_regions_of_a_world_are_told_apart_by_both_coordinates() {
    let mut world = World::new();
    let stone_chunk = chunk_of(|_| section_with(stone(), &[0]));
    let dirt_chunk = chunk_of(|_| section_with(dirt(), &[0]));
    world.insert(1, -1, region_of(vec![(0, 0, stone_chunk)]));
    world.insert(-1, 1, region_of(vec![(0, 0, dirt_chunk)]));
    assert!(world.block_at(at(512, 0, -512)) == Some(stone()));
    assert!(world.block_at(at(-512, 0, 512)) == Some(dirt()));
    assert!(world.block_at(at(512, 0, 512)).is_none());
    assert!(world.block_at(at(-512, 0, -512)).is_none());
    assert!(world.region(1, -1).is_some());
    assert!(world.region(-1, 1).is_some());
    assert!(world.region(1, 1).is_none());
    assert!(world.region(0, 0).is_none());
}

#[test]
fn a_region_that_is_loaded_again_takes_the_place_of_the_first() {
    let mut world = World::new();
    world.insert(0, 0, region_of(vec![(0, 0, chunk_of(|_| section_with(stone(), &[0])))]));
    world.insert(0, 0, region_of(vec![(1, 0, chunk_of(|_| section_with(dirt(), &[0])))]));
    assert!(world.block_at(at(0, 0, 0)).is_none());
    assert!(world.block_at(at(16, 0, 0)) == Some(dirt()));
}

#[test]
fn the_light_at_a_position_is_read_at_the_offset_of_its_block() {
    let mut block_light = vec![0i8; 2048];
    let mut sky_light = vec![0i8; 2048];
    // Offset 1 * 256 + 2 * 16 + 3 = 291 is odd: the high nibble of byte 145.
    block_light[145] = 0x70;
    sky_light[145] = -96;
    // Offset 290 is even: the low nibble of the same byte.
    block_light[145] |= 0x02;
    let mut world = World::new();
    let chunk = chunk_of(|index| match index {
        5 => Section {
            block_states: BlockStates::default(),
            block_light: block_light.clone(),
            sky_light: sky_light.clone(),
        },
        _ => air_section(),
    });
    world.insert(0, 0, region_of(vec![(2, 1, chunk)]));
    assert_eq!(world.light_at(at(32 + 3, 16 + 1, 16 + 2)), 7 + 10);
    assert_eq!(world.light_at(at(32 + 2, 16 + 1, 16 + 2)), 2);
    assert_eq!(world.light_at(at(32 + 4, 16 + 1, 16 + 2)), 0);
    assert_eq!(world.light_at(at(32 + 3, 32 + 1, 16 + 2)), 0);
}

#[test]
fn the_light_is_at_most_30() {
    let mut world = World::new();
    let chunk = chunk_of(|_| Section {
        block_states: BlockStates::default(),
        block_light: vec![-1; 2048],
        sky_light: vec![-1; 2048],
    });
    world.insert(0, 0, region_of(vec![(0, 0, chunk)]));
    assert_eq!(world.light_at(at(0, 0, 0)), 30);
    assert_eq!(world.light_at(at(15, -64, 15)), 30);
}
