use voxel_mesh::coords::{
    chunk_of, local32, local_of, region_of, section_of, slot_of, Area, BlockPos,
};

#[test]
fn a_block_just_below_zero_is_in_the_last_chunk_of_the_region_before() {
    assert_eq!(region_of(-1), -1);
    assert_eq!(chunk_of(-1), -1);
    assert_eq!(slot_of(-1), 31);
    assert_eq!(local_of(-1), 15);
}

#[test]
fn coordinates_split_by_floor_and_least_remainder() {
    assert_eq!(region_of(0), 0);
    assert_eq!(region_of(511), 0);
    assert_eq!(region_of(512), 1);
    assert_eq!(region_of(-512), -1);
    assert_eq!(region_of(-513), -2);
    assert_eq!(region_of(i32::MIN), -4194304);
    assert_eq!(region_of(i32::MAX), 4194303);
    assert_eq!(chunk_of(15), 0);
    assert_eq!(chunk_of(16), 1);
    assert_eq!(chunk_of(-16), -1);
    assert_eq!(chunk_of(-17), -2);
    assert_eq!(slot_of(0), 0);
    assert_eq!(slot_of(511), 31);
    assert_eq!(slot_of(512), 0);
    assert_eq!(slot_of(-16), 31);
    assert_eq!(slot_of(-17), 30);
    assert_eq!(slot_of(-512), 0);
    assert_eq!(local_of(17), 1);
    assert_eq!(local_of(-16), 0);
    assert_eq!(local_of(-17), 15);
    assert_eq!(local32(-1), 31);
    assert_eq!(local32(-32), 0);
    assert_eq!(local32(33), 1);
}

#[test]
fn every_block_coordinate_is_made_up_of_its_parts() {
    for block in [-1025, -513, -512, -17, -16, -1, 0, 1, 15, 16, 511, 512, 1000] {
        let parts = 512 * region_of(block) as i64
            + 16 * slot_of(block) as i64
            + local_of(block) as i64;
        assert_eq!(parts, block as i64);
    }
}

#[test]
fn the_heights_from_minus_64_to_319_have_a_section() {
    assert_eq!(section_of(-65), None);
    assert_eq!(section_of(-64), Some(0));
    assert_eq!(section_of(-49), Some(0));
    assert_eq!(section_of(-48), Some(1));
    assert_eq!(section_of(-1), Some(3));
    assert_eq!(section_of(0), Some(4));
    assert_eq!(section_of(319), Some(23));
    assert_eq!(section_of(320), None);
    assert_eq!(section_of(i32::MIN), None);
    assert_eq!(section_of(i32::MAX), None);
}

#[test]
fn the_offset_in_a_section_has_height_slowest_then_z_then_x() {
    assert_eq!(BlockPos { x: 0, y: -64, z: 0 }.offset(), 0);
    assert_eq!(BlockPos { x: 1, y: -64, z: 0 }.offset(), 1);
    assert_eq!(BlockPos { x: 0, y: -64, z: 1 }.offset(), 16);
    assert_eq!(BlockPos { x: 0, y: -63, z: 0 }.offset(), 256);
    assert_eq!(BlockPos { x: 3, y: 5, z: 2 }.offset(), 5 * 256 + 2 * 16 + 3);
    assert_eq!(BlockPos { x: -1, y: -1, z: -1 }.offset(), 4095);
    assert_eq!(BlockPos { x: -16, y: 16, z: 32 }.offset(), 0);
}

#[test]
fn an_area_meets_the_chunks_that_hold_one_of_its_columns() {
    let area = Area { start_x: 0, start_z: 0, end_x: 32, end_z: 16 };
    assert!(area.intersects_chunk(0, 0));
    assert!(area.intersects_chunk(1, 0));
    assert!(!area.intersects_chunk(2, 0));
    assert!(!area.intersects_chunk(0, 1));
    assert!(!area.intersects_chunk(-1, 0));
    assert!(!area.intersects_chunk(0, -1));
    let across = Area { start_x: -1, start_z: -40, end_x: 1, end_z: -39 };
    assert!(across.intersects_chunk(-1, -3));
    assert!(across.intersects_chunk(0, -3));
    assert!(!across.intersects_chunk(0, -2));
    assert!(!across.intersects_chunk(1, -3));
}

#[test]
fn an_empty_area_meets_nothing() {
    let empty = Area { start_x: 5, start_z: 0, end_x: 5, end_z: 16 };
    assert!(!empty.intersects_chunk(0, 0));
    assert!(!empty.intersects_region(0, 0));
    let backwards = Area { start_x: 10, start_z: 0, end_x: 0, end_z: 16 };
    assert!(!backwards.intersects_chunk(0, 0));
}

#[test]
fn an_area_meets_the_regions_that_hold_one_of_its_columns() {
    let area = Area { start_x: 500, start_z: -1, end_x: 513, end_z: 1 };
    assert!(area.intersects_region(0, 0));
    assert!(area.intersects_region(1, 0));
    assert!(area.intersects_region(0, -1));
    assert!(area.intersects_region(1, -1));
    assert!(!area.intersects_region(2, 0));
    assert!(!area.intersects_region(-1, 0));
    assert!(!area.intersects_region(0, 1));
    let far = Area { start_x: i32::MIN, start_z: i32::MIN, end_x: i32::MAX, end_z: i32::MAX };
    assert!(far.intersects_region(-4194304, 4194303));
    assert!(!far.intersects_region(i32::MAX, 0));
    assert!(!far.intersects_chunk(i32::MIN, 0));
}
