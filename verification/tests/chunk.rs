use voxel_mesh::block::Block;
use voxel_mesh::chunk::{nibble_of, BlockStates, Chunk, DecodeError, Section};
use voxel_mesh::coords::Area;

const EVERYWHERE: Area = Area {
    start_x: i32::MIN,
    start_z: i32::MIN,
    end_x: i32::MAX,
    end_z: i32::MAX,
};

/// A region file with one chunk record, at sector 2, for slot `(x, z)`.
fn file_with_record(x: usize, z: usize, declared: u32, scheme: u8, payload: &[u8]) -> Vec<u8> {
    let mut file = vec![0u8; 8192];
    let entry = 4 * (z * 32 + x);
    file[entry..entry + 4].copy_from_slice(&[0, 0, 2, 1]);
    file.extend_from_slice(&declared.to_be_bytes());
    file.push(scheme);
    file.extend_from_slice(payload);
    file
}

fn air_section() -> Section {
    Section {
        block_states: BlockStates::default(),
        block_light: Vec::new(),
        sky_light: Vec::new(),
    }
}

#[test]
fn the_payload_of_a_chunk_is_found_through_the_location_table() {
    let file = file_with_record(3, 5, 4, 2, &[10, 20, 30, 40, 50]);
    assert_eq!(
        Chunk::load(&file, &EVERYWHERE, 3, 5),
        Ok(Some(&[10u8, 20, 30][..]))
    );
}

#[test]
fn the_slot_of_a_chunk_is_its_coordinate_modulo_32() {
    let file = file_with_record(31, 30, 3, 2, &[7, 8]);
    assert_eq!(Chunk::load(&file, &EVERYWHERE, -1, -2), Ok(Some(&[7u8, 8][..])));
    assert_eq!(Chunk::load(&file, &EVERYWHERE, 63, 62), Ok(Some(&[7u8, 8][..])));
    assert_eq!(Chunk::load(&file, &EVERYWHERE, -33, 30), Ok(Some(&[7u8, 8][..])));
    assert_eq!(Chunk::load(&file, &EVERYWHERE, 30, 31), Ok(None));
}

#[test]
fn the_sector_offset_is_three_bytes_big_endian() {
    let mut file = vec![0u8; 4096 * 0x101];
    file[0..4].copy_from_slice(&[0, 1, 1, 1]);
    file.extend_from_slice(&[0, 0, 0, 2, 2, 99]);
    assert_eq!(Chunk::load(&file, &EVERYWHERE, 0, 0), Ok(Some(&[99u8][..])));
}

#[test]
fn the_declared_length_is_four_bytes_big_endian() {
    let payload = vec![5u8; 0x0203];
    let file = file_with_record(0, 0, 0x0204, 2, &payload);
    assert_eq!(Chunk::load(&file, &EVERYWHERE, 0, 0), Ok(Some(&payload[..])));
}

#[test]
fn a_payload_may_be_empty() {
    let file = file_with_record(0, 0, 1, 2, &[]);
    assert_eq!(Chunk::load(&file, &EVERYWHERE, 0, 0), Ok(Some(&[][..])));
}

#[test]
fn a_chunk_with_a_zero_offset_is_not_present() {
    let file = file_with_record(3, 5, 4, 2, &[10, 20, 30]);
    assert_eq!(Chunk::load(&file, &EVERYWHERE, 0, 0), Ok(None));
    assert_eq!(Chunk::load(&file, &EVERYWHERE, 5, 3), Ok(None));
}

#[test]
fn a_chunk_outside_the_area_is_passed_over() {
    let area = Area { start_x: 0, start_z: 0, end_x: 32, end_z: 16 };
    let file = file_with_record(2, 0, 4, 7, &[10, 20, 30]);
    assert_eq!(Chunk::load(&file, &area, 2, 0), Ok(None));
    assert_eq!(Chunk::load(&[], &area, 2, 0), Ok(None));
    assert_eq!(Chunk::load(&[], &area, 0, 1), Ok(None));
    assert_eq!(Chunk::load(&[], &area, -1, 0), Ok(None));
}

#[test]
fn a_file_without_a_whole_location_table_is_refused() {
    assert_eq!(
        Chunk::load(&[], &EVERYWHERE, 0, 0),
        Err(DecodeError::TruncatedHeader)
    );
    assert_eq!(
        Chunk::load(&vec![0u8; 4095], &EVERYWHERE, 0, 0),
        Err(DecodeError::TruncatedHeader)
    );
    assert_eq!(Chunk::load(&vec![0u8; 4096], &EVERYWHERE, 0, 0), Ok(None));
}

#[test]
fn another_compression_scheme_than_zlib_is_refused() {
    for scheme in [0u8, 1, 3, 4, 127, 255] {
        let file = file_with_record(0, 0, 4, scheme, &[10, 20, 30]);
        assert_eq!(
            Chunk::load(&file, &EVERYWHERE, 0, 0),
            Err(DecodeError::UnsupportedCompression)
        );
    }
}

#[test]
fn a_declared_length_of_zero_is_refused() {
    let file = file_with_record(0, 0, 0, 2, &[10, 20, 30]);
    assert_eq!(
        Chunk::load(&file, &EVERYWHERE, 0, 0),
        Err(DecodeError::MalformedLength)
    );
}

#[test]
fn a_record_that_runs_past_the_end_of_the_file_is_refused() {
    let file = file_with_record(0, 0, 5, 2, &[10, 20, 30]);
    assert_eq!(
        Chunk::load(&file, &EVERYWHERE, 0, 0),
        Err(DecodeError::TruncatedChunk)
    );
    let mut short = file_with_record(0, 0, 4, 2, &[]);
    short.truncate(8192 + 4);
    assert_eq!(
        Chunk::load(&short, &EVERYWHERE, 0, 0),
        Err(DecodeError::TruncatedChunk)
    );
    let mut beyond = vec![0u8; 8192];
    beyond[0..4].copy_from_slice(&[0, 0, 3, 1]);
    assert_eq!(
        Chunk::load(&beyond, &EVERYWHERE, 0, 0),
        Err(DecodeError::TruncatedChunk)
    );
}

#[test]
fn a_record_that_is_cut_short_is_refused_before_its_compression_scheme_is_read() {
    let file = file_with_record(0, 0, 100, 9, &[10, 20, 30]);
    assert_eq!(
        Chunk::load(&file, &EVERYWHERE, 0, 0),
        Err(DecodeError::TruncatedChunk)
    );
}

#[test]
fn a_light_level_is_the_low_nibble_for_an_even_offset_and_the_high_one_for_an_odd() {
    let bytes: Vec<i8> = vec![0x21, -1, 0x7f, -128];
    assert_eq!(nibble_of(&bytes, 0), 1);
    assert_eq!(nibble_of(&bytes, 1), 2);
    assert_eq!(nibble_of(&bytes, 2), 15);
    assert_eq!(nibble_of(&bytes, 3), 15);
    assert_eq!(nibble_of(&bytes, 4), 15);
    assert_eq!(nibble_of(&bytes, 5), 7);
    assert_eq!(nibble_of(&bytes, 6), 0);
    assert_eq!(nibble_of(&bytes, 7), 8);
}

#[test]
fn a_light_array_that_ends_early_reads_as_zero() {
    let bytes: Vec<i8> = vec![0x21];
    assert_eq!(nibble_of(&bytes, 2), 0);
    assert_eq!(nibble_of(&bytes, 4095), 0);
    assert_eq!(nibble_of(&Vec::new(), 0), 0);
    assert_eq!(nibble_of(&bytes, usize::MAX), 0);
}

#[test]
fn the_light_of_a_section_is_block_light_plus_sky_light() {
    let section = Section {
        block_states: BlockStates::default(),
        block_light: vec![0x21, -1],
        sky_light: vec![0x43, -16, 0x05],
    };
    assert_eq!(section.light(0), 1 + 3);
    assert_eq!(section.light(1), 2 + 4);
    assert_eq!(section.light(2), 15 + 0);
    assert_eq!(section.light(3), 15 + 15);
    assert_eq!(section.light(4), 0 + 5);
    assert_eq!(section.light(5), 0);
    assert_eq!(section.light(4095), 0);
    assert_eq!(air_section().light(0), 0);
}

#[test]
fn the_block_of_a_section_is_the_palette_entry_that_its_index_names() {
    let stone = Block::new("minecraft:stone".to_string(), Vec::new());
    let mut words = vec![0i64; 256];
    words[0] = 0x10;
    words[255] = 1 << 60;
    let section = Section {
        block_states: BlockStates::new(vec![Block::air(), stone], Some(words))
            .unwrap_or_default(),
        block_light: Vec::new(),
        sky_light: Vec::new(),
    };
    assert!(section.block(0) == Some(Block::air()));
    assert!(section.block(1) == Some(stone));
    assert!(section.block(2) == Some(Block::air()));
    assert!(section.block(4095) == Some(stone));
    assert!(section.block(4096).is_none());
    assert!(section.block(usize::MAX).is_none());
}

#[test]
fn a_chunk_has_24_sections() {
    let chunk = match Chunk::new((0..24).map(|_| air_section()).collect()) {
        Ok(chunk) => chunk,
        Err(error) => panic!("{error:?}"),
    };
    assert!(chunk.section(0).is_some());
    assert!(chunk.section(23).is_some());
    assert!(chunk.section(24).is_none());
    for count in [0usize, 1, 23, 25] {
        assert!(matches!(
            Chunk::new((0..count).map(|_| air_section()).collect()),
            Err(DecodeError::WrongSectionCount)
        ));
    }
}
