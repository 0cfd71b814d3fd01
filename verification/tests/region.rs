use voxel_mesh::chunk::{BlockStates, Chunk, DecodeError, Section};
use voxel_mesh::coords::Area;
use voxel_mesh::region::Region;

const EVERYWHERE: Area = Area {
    start_x: i32::MIN,
    start_z: i32::MIN,
    end_x: i32::MAX,
    end_z: i32::MAX,
};

fn air_chunk() -> Chunk {
    let sections = (0..24)
        .map(|_| Section {
            block_states: BlockStates::default(),
            block_light: Vec::new(),
            sky_light: Vec::new(),
        })
        .collect();
    match Chunk::new(sections) {
        Ok(chunk) => chunk,
        Err(error) => panic!("{error:?}"),
    }
}

/// A region file with a record for each of `slots`, whose payload is the
/// one byte that is the record's number.
fn file_with_records(slots: &[(usize, usize)], scheme: u8) -> Vec<u8> {
    let mut file = vec![0u8; 8192];
    for (number, (x, z)) in slots.iter().enumerate() {
        let entry = 4 * (z * 32 + x);
        file[entry..entry + 4].copy_from_slice(&[0, 0, 2 + number as u8, 1]);
        let mut record = vec![0u8, 0, 0, 2, scheme, number as u8];
        record.resize(4096, 0);
        file.extend_from_slice(&record);
    }
    file
}

#[test]
fn the_name_of_a_region_file_gives_its_coordinates() {
    assert_eq!(Region::parse_file_name(b"r.0.0.mca"), Some((0, 0)));
    assert_eq!(Region::parse_file_name(b"r.1.-2.mca"), Some((1, -2)));
    assert_eq!(Region::parse_file_name(b"r.-13.207.mca"), Some((-13, 207)));
    assert_eq!(
        Region::parse_file_name(b"r.2147483647.-2147483648.mca"),
        Some((i32::MAX, i32::MIN))
    );
    assert_eq!(Region::parse_file_name(b"r.+5.007.mca"), Some((5, 7)));
}

#[test]
fn only_the_second_and_third_part_of_a_file_name_count() {
    assert_eq!(Region::parse_file_name(b"r.3.4"), Some((3, 4)));
    assert_eq!(Region::parse_file_name(b".3.4."), Some((3, 4)));
    assert_eq!(Region::parse_file_name(b"region.3.4.mcr.bak"), Some((3, 4)));
}

#[test]
fn a_file_name_without_two_numbers_gives_nothing() {
    assert_eq!(Region::parse_file_name(b""), None);
    assert_eq!(Region::parse_file_name(b"r"), None);
    assert_eq!(Region::parse_file_name(b"r.1"), None);
    assert_eq!(Region::parse_file_name(b"r.1."), None);
    assert_eq!(Region::parse_file_name(b"r..2.mca"), None);
    assert_eq!(Region::parse_file_name(b"r.x.2.mca"), None);
    assert_eq!(Region::parse_file_name(b"r.1.2a.mca"), None);
    assert_eq!(Region::parse_file_name(b"r.1.-.mca"), None);
    assert_eq!(Region::parse_file_name(b"r.1.+.mca"), None);
    assert_eq!(Region::parse_file_name(b"r.--1.2.mca"), None);
    assert_eq!(Region::parse_file_name(b"r.1 .2.mca"), None);
    assert_eq!(Region::parse_file_name(b"level.dat"), None);
}

#[test]
fn a_number_past_32_bits_in_a_file_name_gives_nothing() {
    assert_eq!(Region::parse_file_name(b"r.2147483648.0.mca"), None);
    assert_eq!(Region::parse_file_name(b"r.0.-2147483649.mca"), None);
    assert_eq!(Region::parse_file_name(b"r.99999999999999999999999.0.mca"), None);
    assert_eq!(Region::parse_file_name(b"r.0.-99999999999999999999999.mca"), None);
    assert_eq!(Region::parse_file_name(b"r.21474836480x.0.mca"), None);
}

#[test]
fn the_payloads_of_a_region_are_listed_row_by_row() {
    let file = file_with_records(&[(0, 0), (5, 0), (0, 1), (31, 31)], 2);
    let payloads = match Region::payloads(&file, &EVERYWHERE, 0, 0) {
        Ok(payloads) => payloads,
        Err(error) => panic!("{error:?}"),
    };
    assert_eq!(payloads.len(), 1024);
    for (slot, payload) in payloads.iter().enumerate() {
        let expected: Option<&[u8]> = match slot {
            0 => Some(&[0]),
            5 => Some(&[1]),
            32 => Some(&[2]),
            1023 => Some(&[3]),
            _ => None,
        };
        assert_eq!(*payload, expected);
    }
}

#[test]
fn the_chunks_of_a_region_outside_the_area_are_passed_over() {
    let file = file_with_records(&[(0, 0), (5, 0), (0, 1), (31, 31)], 2);
    // Region (-1, 2) holds the chunks -32..0 by 64..96.
    let area = Area { start_x: -512, start_z: 1024, end_x: -496, end_z: 1056 };
    let payloads = match Region::payloads(&file, &area, -1, 2) {
        Ok(payloads) => payloads,
        Err(error) => panic!("{error:?}"),
    };
    assert_eq!(payloads.len(), 1024);
    assert_eq!(payloads[0], Some(&[0u8][..]));
    assert_eq!(payloads[32], Some(&[2u8][..]));
    assert_eq!(payloads.iter().filter(|payload| payload.is_some()).count(), 2);
    let elsewhere = match Region::payloads(&file, &area, 0, 0) {
        Ok(payloads) => payloads,
        Err(error) => panic!("{error:?}"),
    };
    assert_eq!(elsewhere.len(), 1024);
    assert!(elsewhere.iter().all(|payload| payload.is_none()));
}

#[test]
fn a_region_at_the_edge_of_the_grid_has_no_chunk_past_it() {
    let file = file_with_records(&[(0, 0), (31, 31)], 2);
    let payloads = match Region::payloads(&file, &EVERYWHERE, i32::MAX, i32::MIN) {
        Ok(payloads) => payloads,
        Err(error) => panic!("{error:?}"),
    };
    assert_eq!(payloads.len(), 1024);
    assert!(payloads.iter().all(|payload| payload.is_none()));
}

#[test]
fn the_first_malformed_record_of_a_region_is_reported() {
    let mut file = file_with_records(&[(0, 0), (5, 0), (0, 1)], 2);
    file[8192 + 4096 + 4] = 1;
    file[8192 + 2 * 4096 + 3] = 0;
    assert!(matches!(
        Region::payloads(&file, &EVERYWHERE, 0, 0),
        Err(DecodeError::UnsupportedCompression)
    ));
    let area = Area { start_x: 0, start_z: 16, end_x: 16, end_z: 32 };
    assert!(matches!(
        Region::payloads(&file, &area, 0, 0),
        Err(DecodeError::MalformedLength)
    ));
    assert!(matches!(
        Region::payloads(&[], &EVERYWHERE, 0, 0),
        Err(DecodeError::TruncatedHeader)
    ));
}

#[test]
fn a_region_has_1024_chunk_slots() {
    let mut chunks: Vec<Option<Chunk>> = (0..1024).map(|_| None).collect();
    chunks[32 * 3 + 7] = Some(air_chunk());
    let region = match Region::new(chunks) {
        Ok(region) => region,
        Err(error) => panic!("{error:?}"),
    };
    assert!(region.chunk(7, 3).is_some());
    assert!(region.chunk(3, 7).is_none());
    assert!(region.chunk(0, 0).is_none());
    assert!(region.chunk(32, 0).is_none());
    assert!(region.chunk(7, 32).is_none());
    assert!(region.chunk(39, 2).is_none());
    for count in [0usize, 1023, 1025] {
        assert!(matches!(
            Region::new((0..count).map(|_| None).collect()),
            Err(DecodeError::WrongSlotCount)
        ));
    }
}
