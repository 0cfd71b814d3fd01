use voxel_mesh::block::Block;
use voxel_mesh::chunk::{BlockStates, DecodeError};
use voxel_mesh::palette::{bits_for, field_of};

fn palette_of(len: usize) -> Vec<Block> {
    (0..len)
        .map(|i| {
            if i == 0 {
                Block::air()
            } else {
                Block::new(format!("minecraft:block_{i}"), Vec::new())
            }
        })
        .collect()
}

fn pack(values: &[u16], bits: u32) -> Vec<i64> {
    let per_word = (64 / bits) as usize;
    values
        .chunks(per_word)
        .map(|chunk| {
            let mut word: u64 = 0;
            for (place, value) in chunk.iter().enumerate() {
                word |= (*value as u64) << (place as u32 * bits);
            }
            word as i64
        })
        .collect()
}

fn values_below(limit: usize) -> Vec<u16> {
    (0..4096usize)
        .map(|i| ((i * 7919 + 13) % limit) as u16)
        .collect()
}

fn round_trip(palette_len: usize) {
    let values = values_below(palette_len);
    let words = pack(&values, bits_for(palette_len));
    let states = match BlockStates::new(palette_of(palette_len), Some(words)) {
        Ok(states) => states,
        Err(error) => panic!("{error:?}"),
    };
    assert_eq!(states.data().as_slice(), values.as_slice());
    assert_eq!(states.palette().len(), palette_len);
    for offset in [0usize, 1, 15, 16, 17, 255, 4095] {
        assert!(states.get(offset) == Some(states.palette()[values[offset] as usize]));
    }
}

#[test]
fn an_index_is_at_least_four_bits_wide_and_wide_enough_for_the_palette() {
    assert_eq!(bits_for(1), 4);
    assert_eq!(bits_for(2), 4);
    assert_eq!(bits_for(3), 4);
    assert_eq!(bits_for(16), 4);
    assert_eq!(bits_for(17), 5);
    assert_eq!(bits_for(32), 5);
    assert_eq!(bits_for(33), 6);
    assert_eq!(bits_for(256), 8);
    assert_eq!(bits_for(257), 9);
    assert_eq!(bits_for(4096), 12);
    assert_eq!(bits_for(4097), 13);
    assert_eq!(bits_for(65535), 16);
    assert_eq!(bits_for(65536), 16);
}

#[test]
fn a_field_is_read_from_the_low_bits_up() {
    let word = 0x0123_4567_89ab_cdefu64 as i64;
    assert_eq!(field_of(word, 4, 0), 0xf);
    assert_eq!(field_of(word, 4, 1), 0xe);
    assert_eq!(field_of(word, 4, 15), 0x0);
    assert_eq!(field_of(word, 8, 1), 0xcd);
    assert_eq!(field_of(word, 16, 3), 0x0123);
    assert_eq!(field_of(word, 5, 0), 0x0f);
    assert_eq!(field_of(word, 5, 1), 0x0f);
    assert_eq!(field_of(word, 5, 11), (0x0123_4567_89ab_cdefu64 >> 55) & 0x1f);
}

#[test]
fn a_field_of_a_negative_word_reads_its_bits() {
    assert_eq!(field_of(-1, 4, 15), 0xf);
    assert_eq!(field_of(-1, 5, 11), 0x1f);
    assert_eq!(field_of(i64::MIN, 4, 15), 0x8);
    assert_eq!(field_of(i64::MIN, 4, 14), 0x0);
    assert_eq!(field_of(-2, 16, 0), 0xfffe);
}

#[test]
fn unpacking_gives_back_what_was_packed_for_palette_size_2() {
    round_trip(2);
}

#[test]
fn unpacking_gives_back_what_was_packed_for_palette_size_16() {
    round_trip(16);
}

#[test]
fn unpacking_gives_back_what_was_packed_for_palette_size_17() {
    round_trip(17);
}

#[test]
fn unpacking_gives_back_what_was_packed_for_palette_size_256() {
    round_trip(256);
}

#[test]
fn unpacking_gives_back_what_was_packed_for_palette_size_257() {
    round_trip(257);
}

#[test]
fn unpacking_gives_back_what_was_packed_for_palette_size_4096() {
    round_trip(4096);
}

#[test]
fn a_palette_of_one_entry_fills_the_section_whatever_the_indices_say() {
    let without = BlockStates::new(palette_of(1), None).unwrap_or_default();
    assert_eq!(without.data().as_slice(), vec![0u16; 4096].as_slice());
    let with = match BlockStates::new(palette_of(1), Some(vec![-1; 3])) {
        Ok(states) => states,
        Err(error) => panic!("{error:?}"),
    };
    assert_eq!(with.data().as_slice(), vec![0u16; 4096].as_slice());
    assert!(with.get(4095) == Some(Block::air()));
    assert!(with.get(4096).is_none());
}

#[test]
fn indices_do_not_run_across_two_words() {
    // Five bits to an index: twelve indices to a word, four bits unused.
    let mut words = vec![0i64; 342];
    words[0] = (0b1111u64 << 60) as i64 | 3 << 55;
    words[1] = 7;
    let states = match BlockStates::new(palette_of(17), Some(words)) {
        Ok(states) => states,
        Err(error) => panic!("{error:?}"),
    };
    assert_eq!(states.data()[11], 3);
    assert_eq!(states.data()[12], 7);
    assert_eq!(states.data()[13], 0);
}

#[test]
fn the_default_block_states_are_all_air() {
    let states = BlockStates::default();
    assert_eq!(states.palette().len(), 1);
    assert!(states.palette()[0].is_air());
    assert_eq!(states.data().len(), 4096);
    assert!(states.data().iter().all(|index| *index == 0));
}

#[test]
fn an_empty_palette_is_refused() {
    assert!(matches!(
        BlockStates::new(Vec::new(), Some(vec![0; 256])),
        Err(DecodeError::EmptyPalette)
    ));
    assert!(matches!(
        BlockStates::new(Vec::new(), None),
        Err(DecodeError::EmptyPalette)
    ));
}

#[test]
fn a_palette_past_16_bits_is_refused() {
    assert!(matches!(
        BlockStates::new(vec![Block::air(); 65537], Some(vec![0; 4096])),
        Err(DecodeError::PaletteTooLarge)
    ));
    assert!(BlockStates::new(vec![Block::air(); 65536], Some(vec![0; 1024])).is_ok());
}

#[test]
fn several_palette_entries_need_an_index_array() {
    assert!(matches!(
        BlockStates::new(palette_of(2), None),
        Err(DecodeError::MissingIndices)
    ));
}

#[test]
fn fewer_than_4096_indices_are_refused() {
    assert!(matches!(
        BlockStates::new(palette_of(2), Some(vec![0; 255])),
        Err(DecodeError::TooFewIndices)
    ));
    assert!(BlockStates::new(palette_of(2), Some(vec![0; 256])).is_ok());
    assert!(matches!(
        BlockStates::new(palette_of(17), Some(vec![0; 341])),
        Err(DecodeError::TooFewIndices)
    ));
    assert!(BlockStates::new(palette_of(17), Some(vec![0; 342])).is_ok());
    assert!(matches!(
        BlockStates::new(palette_of(2), Some(Vec::new())),
        Err(DecodeError::TooFewIndices)
    ));
}

#[test]
fn an_index_past_the_palette_is_refused() {
    let mut words = vec![0i64; 256];
    words[255] = 2 << 60;
    assert!(matches!(
        BlockStates::new(palette_of(2), Some(words.clone())),
        Err(DecodeError::IndexOutOfPalette)
    ));
    assert!(BlockStates::new(palette_of(3), Some(words)).is_ok());
}

#[test]
fn an_index_past_the_palette_after_the_last_voxel_does_no_harm() {
    let mut words = vec![0i64; 257];
    words[256] = -1;
    assert!(BlockStates::new(palette_of(2), Some(words)).is_ok());
}
