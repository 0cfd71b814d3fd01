//! Chunks and their sections: where a chunk's record lies in a region file,
//! and the blocks and light levels that a decoded section holds.

use vstd::prelude::*;
use vstd::slice::slice_subrange;

use crate::block::{air_view, Block};
use crate::coords::Area;
use crate::palette::{
    bits_for, field_of, index_bits, lemma_index_bits_fit, lemma_unpacking_undoes_packing, packed,
    unpacked, MAX_PALETTE, SECTION_VOXELS,
};
use vstd::arithmetic::power2::pow2;

verus! {

/// How many sections a chunk has.
pub const CHUNK_SECTIONS: usize = 24;

/// The compression scheme tag of zlib.
pub const ZLIB: u8 = 2;

/// Why a region file or a chunk in it cannot be decoded.
#[derive(Clone, Copy, Debug, PartialEq, Eq, Structural)]
pub enum DecodeError {
    /// The file is shorter than its table of chunk locations.
    TruncatedHeader,
    /// A chunk's record reaches past the end of the file.
    TruncatedChunk,
    /// A chunk's record declares a length that leaves no room for the
    /// compression tag.
    MalformedLength,
    /// A chunk is compressed with a scheme other than zlib.
    UnsupportedCompression,
    /// A section has an empty palette.
    EmptyPalette,
    /// A section's palette is longer than a 16-bit index can address.
    PaletteTooLarge,
    /// A section with several palette entries has no index array.
    MissingIndices,
    /// A section's index array holds fewer indices than the section has
    /// voxels.
    TooFewIndices,
    /// One of a section's indices points past the end of its palette.
    IndexOutOfPalette,
    /// A chunk does not have 24 sections.
    WrongSectionCount,
    /// A region does not have 32 by 32 chunk slots.
    WrongSlotCount,
}

/// The words of an optional index array.
pub open spec fn words_of(data: Option<Vec<i64>>) -> Option<Seq<i64>> {
    match data {
        Some(words) => Some(words@),
        None => None,
    }
}

/// The indices of a section whose palette has `palette_len` entries and
/// whose index array is `data`, or why the section has none.
pub open spec fn decoded_indices(palette_len: nat, data: Option<Seq<i64>>) -> Result<
    Seq<u16>,
    DecodeError,
> {
    if palette_len == 0 {
        Err(DecodeError::EmptyPalette)
    } else if palette_len == 1 {
        Ok(Seq::new(4096, |i: int| 0u16))
    } else if palette_len > 65536 {
        Err(DecodeError::PaletteTooLarge)
    } else {
        match data {
            None => Err(DecodeError::MissingIndices),
            Some(words) => {
                let all = unpacked(words, index_bits(palette_len));
                if all.len() < 4096 {
                    Err(DecodeError::TooFewIndices)
                } else if exists|i: int| 0 <= i < 4096 && #[trigger] all[i] >= palette_len {
                    Err(DecodeError::IndexOutOfPalette)
                } else {
                    Ok(Seq::new(4096, |i: int| all[i] as u16))
                }
            },
        }
    }
}

/// Decoding undoes packing: where 4096 indices into a palette of at most
/// 65536 entries are packed at the width that the palette's length gives,
/// the decoded indices are the ones that were packed.
pub proof fn lemma_decoding_undoes_packing(palette_len: nat, values: Seq<nat>)
    requires
        1 <= palette_len <= 65536,
        values.len() == 4096,
        forall|i: int| 0 <= i < 4096 ==> values[i] < palette_len,
    ensures
        decoded_indices(palette_len, Some(packed(values, index_bits(palette_len)))) == Ok::<
            Seq<u16>,
            DecodeError,
        >(Seq::new(4096, |i: int| values[i] as u16)),
{
    let bits = index_bits(palette_len);
    let packed_values = Seq::new(4096, |i: int| values[i] as u16);
    if palette_len == 1 {
        assert(Seq::new(4096, |i: int| 0u16) =~= packed_values);
    } else {
        lemma_index_bits_fit(palette_len);
        assert forall|i: int| 0 <= i < values.len() implies values[i] < pow2(bits) by {}
        lemma_unpacking_undoes_packing(values, bits);
        let all = unpacked(packed(values, bits), bits);
        assert forall|i: int| 0 <= i < 4096 implies #[trigger] all[i] == values[i] by {
            assert(all.take(4096)[i] == all[i]);
        }
        assert(Seq::new(4096, |i: int| all[i] as u16) =~= packed_values);
    }
}

/// Values filled up with zeros to the 4096 that a section has.
pub open spec fn padded(values: Seq<nat>) -> Seq<nat> {
    values + Seq::new((4096 - values.len()) as nat, |i: int| 0nat)
}

/// Decoding undoes packing for fewer values too: where at most 4096 indices
/// into a palette are filled up with zeros and packed, the decoded indices
/// are the ones that were packed, in order, and zeros after them.
pub proof fn lemma_decoding_undoes_padded_packing(palette_len: nat, values: Seq<nat>)
    requires
        1 <= palette_len <= 65536,
        values.len() <= 4096,
        forall|i: int| 0 <= i < values.len() ==> values[i] < palette_len,
    ensures
        decoded_indices(palette_len, Some(packed(padded(values), index_bits(palette_len)))) is Ok,
        decoded_indices(
            palette_len,
            Some(packed(padded(values), index_bits(palette_len))),
        )->Ok_0.len() == 4096,
        forall|n: int|
            0 <= n < 4096 ==> #[trigger] decoded_indices(
                palette_len,
                Some(packed(padded(values), index_bits(palette_len))),
            )->Ok_0[n] == if n < values.len() {
                values[n]
            } else {
                0
            },
{
    let all = padded(values);
    assert forall|i: int| 0 <= i < 4096 implies all[i] < palette_len by {}
    lemma_decoding_undoes_packing(palette_len, all);
}

/// What a section's block states hold.
pub struct BlockStatesView {
    /// The distinct blocks of the section.
    pub palette: Seq<Block>,
    /// For each voxel, by offset, the index of its block in the palette.
    pub data: Seq<u16>,
}

/// The blocks of one section: a palette and one palette index per voxel.
pub struct BlockStates {
    palette: Vec<Block>,
    data: Vec<u16>,
}

impl View for BlockStates {
    type V = BlockStatesView;

    closed spec fn view(&self) -> BlockStatesView {
        BlockStatesView { palette: self.palette@, data: self.data@ }
    }
}

impl BlockStates {
    #[verifier::type_invariant]
    spec fn well_formed(&self) -> bool {
        &&& self.palette.len() >= 1
        &&& self.data.len() == 4096
        &&& forall|i: int| 0 <= i < 4096 ==> (#[trigger] self.data[i]) < self.palette.len()
    }

    /// The block at voxel `offset`, for the offsets that a section has.
    pub open spec fn spec_get(&self, offset: int) -> Option<Block> {
        if 0 <= offset < 4096 {
            Some(self@.palette[self@.data[offset] as int])
        } else {
            None
        }
    }

    /// Unpacks the index array `data` of a section with palette `palette`.
    ///
    /// A palette of one entry needs no index array: every voxel holds that
    /// entry, whatever `data` is.
    pub fn new(palette: Vec<Block>, data: Option<Vec<i64>>) -> (result: Result<
        BlockStates,
        DecodeError,
    >)
        ensures
            match result {
                Ok(states) => states@.palette == palette@ && decoded_indices(
                    palette@.len(),
                    words_of(data),
                ) == Ok::<Seq<u16>, DecodeError>(states@.data),
                Err(error) => decoded_indices(palette@.len(), words_of(data)) == Err::<
                    Seq<u16>,
                    DecodeError,
                >(error),
            },
    {
        let len = palette.len();
        if len == 0 {
            return Err(DecodeError::EmptyPalette);
        }
        if len == 1 {
            let mut zeros: Vec<u16> = Vec::new();
            while zeros.len() < SECTION_VOXELS
                invariant
                    zeros.len() <= 4096,
                    forall|i: int| 0 <= i < zeros.len() ==> zeros[i] == 0,
                decreases 4096 - zeros.len(),
            {
                zeros.push(0);
            }
            assert(zeros@ =~= Seq::new(4096, |i: int| 0u16));
            return Ok(BlockStates { palette, data: zeros });
        }
        if len > MAX_PALETTE {
            return Err(DecodeError::PaletteTooLarge);
        }
        let words = match &data {
            None => {
                return Err(DecodeError::MissingIndices);
            },
            Some(words) => words,
        };
        let bits: u32 = bits_for(len);
        proof {
            lemma_index_bits_fit(len as nat);
        }
        let per_word: usize = (64 / bits) as usize;
        let ghost all = unpacked(words@, bits as nat);
        assert(4 <= per_word <= 16 && per_word * bits <= 64) by (nonlinear_arith)
            requires
                4 <= bits <= 16,
                per_word == 64int / (bits as int),
        ;
        assert(all.len() == words.len() * per_word);
        if words.len() < 1024 {
            assert(words.len() * per_word <= 16384) by (nonlinear_arith)
                requires
                    words.len() < 1024,
                    per_word <= 16,
            ;
            if words.len() * per_word < SECTION_VOXELS {
                return Err(DecodeError::TooFewIndices);
            }
        }
        assert(words.len() * per_word >= 4096) by (nonlinear_arith)
            requires
                words.len() >= 1024 || words.len() * per_word >= 4096,
                per_word >= 4,
        ;
        let mut indices: Vec<u16> = Vec::new();
        while indices.len() < SECTION_VOXELS
            invariant
                indices.len() <= 4096,
                2 <= len <= 65536,
                len == palette@.len(),
                bits == index_bits(len as nat),
                words_of(data) == Some(words@),
                4 <= bits <= 16,
                4 <= per_word <= 16,
                per_word == 64int / (bits as int),
                per_word * bits <= 64,
                words.len() * per_word >= 4096,
                all == unpacked(words@, bits as nat),
                all.len() == words.len() * per_word,
                forall|i: int| 0 <= i < indices.len() ==> all[i] < len && indices[i] == all[i],
            decreases 4096 - indices.len(),
        {
            let i: usize = indices.len();
            let word: usize = i / per_word;
            let place: usize = i % per_word;
            assert(word < words.len()) by (nonlinear_arith)
                requires
                    i < 4096,
                    words.len() * per_word >= 4096,
                    per_word > 0,
                    word == (i as int) / (per_word as int),
            ;
            assert((place + 1) * bits <= 64) by (nonlinear_arith)
                requires
                    place < per_word,
                    per_word * bits <= 64,
            ;
            let value: u64 = field_of(words[word], bits, place as u32);
            assert(value == all[i as int]);
            if value >= len as u64 {
                assert(0 <= i < 4096 && all[i as int] >= len);
                return Err(DecodeError::IndexOutOfPalette);
            }
            indices.push(value as u16);
        }
        assert(indices@ =~= Seq::new(4096, |i: int| all[i] as u16));
        Ok(BlockStates { palette, data: indices })
    }

    /// The palette.
    pub fn palette(&self) -> (palette: &Vec<Block>)
        ensures
            palette@ == self@.palette,
            palette@.len() >= 1,
    {
        proof {
            use_type_invariant(self);
        }
        &self.palette
    }

    /// The palette index of each voxel, by offset.
    pub fn data(&self) -> (data: &Vec<u16>)
        ensures
            data@ == self@.data,
            data@.len() == 4096,
            forall|i: int| 0 <= i < 4096 ==> (#[trigger] data@[i]) < self@.palette.len(),
    {
        proof {
            use_type_invariant(self);
        }
        &self.data
    }

    /// Computes [`BlockStates::spec_get`].
    pub fn get(&self, offset: usize) -> (block: Option<Block>)
        ensures
            block == self.spec_get(offset as int),
    {
        proof {
            use_type_invariant(self);
        }
        if offset < SECTION_VOXELS {
            Some(self.palette[self.data[offset] as usize])
        } else {
            None
        }
    }
}

impl Default for BlockStates {
    /// A section of air.
    fn default() -> (states: BlockStates)
        ensures
            states@.palette.len() == 1,
            states@.palette[0]@ == air_view(),
            states@.data == Seq::new(4096, |i: int| 0u16),
    {
        let mut palette: Vec<Block> = Vec::new();
        palette.push(Block::air());
        match BlockStates::new(palette, None) {
            Ok(states) => states,
            Err(_) => {
                proof {
                    assert(false);
                }
                BlockStates { palette: Vec::new(), data: Vec::new() }
            },
        }
    }
}

/// The 8 bits of a byte read as an unsigned number.
pub open spec fn byte_value(byte: i8) -> int {
    if byte < 0 {
        byte + 256
    } else {
        byte as int
    }
}

/// The light level that a nibble-packed array holds for voxel `offset`: the
/// low half of byte `offset / 2` for an even offset, the high half for an
/// odd one, and zero where the array ends before that byte.
pub open spec fn nibble(bytes: Seq<i8>, offset: int) -> int {
    if 0 <= offset / 2 < bytes.len() {
        if offset % 2 == 0 {
            byte_value(bytes[offset / 2]) % 16
        } else {
            byte_value(bytes[offset / 2]) / 16
        }
    } else {
        0
    }
}

/// Computes [`nibble`].
pub fn nibble_of(bytes: &Vec<i8>, offset: usize) -> (level: u8)
    ensures
        level == nibble(bytes@, offset as int),
        level <= 15,
{
    let at: usize = offset / 2;
    if at < bytes.len() {
        let signed: i8 = bytes[at];
        let byte: u8 = #[verifier::truncate]
        (signed as u8);
        assert(signed as u8 == (if signed < 0i8 {
            (signed + 256) as u8
        } else {
            signed as u8
        })) by (bit_vector);
        assert(byte >> 4 == byte / 16) by (bit_vector);
        assert(byte & 0xf == byte % 16) by (bit_vector);
        if offset % 2 == 0 {
            byte & 0xf
        } else {
            byte >> 4
        }
    } else {
        0
    }
}

/// One 16 by 16 by 16 slab of a chunk.
pub struct Section {
    /// The blocks of the section.
    pub block_states: BlockStates,
    /// Light from blocks, one nibble per voxel; may be empty.
    pub block_light: Vec<i8>,
    /// Light from the sky, one nibble per voxel; may be empty.
    pub sky_light: Vec<i8>,
}

impl Section {
    /// The block at voxel `offset`, for the offsets that a section has.
    pub open spec fn spec_block(&self, offset: int) -> Option<Block> {
        self.block_states.spec_get(offset)
    }

    /// The light level at voxel `offset`: block light plus sky light.
    pub open spec fn spec_light(&self, offset: int) -> int {
        nibble(self.block_light@, offset) + nibble(self.sky_light@, offset)
    }

    /// Computes [`Section::spec_block`].
    pub fn block(&self, offset: usize) -> (block: Option<Block>)
        ensures
            block == self.spec_block(offset as int),
    {
        self.block_states.get(offset)
    }

    /// Computes [`Section::spec_light`].
    pub fn light(&self, offset: usize) -> (level: u8)
        ensures
            level == self.spec_light(offset as int),
            level <= 30,
    {
        nibble_of(&self.block_light, offset) + nibble_of(&self.sky_light, offset)
    }
}

/// The first index into a region file of the location entry of chunk
/// `(x, z)`.
pub open spec fn location_entry(x: int, z: int) -> int {
    4 * ((z % 32) * 32 + x % 32)
}

/// The number that the bytes `bytes[at..at + count]` spell, most
/// significant byte first.
pub open spec fn big_endian(bytes: Seq<u8>, at: int, count: nat) -> int
    decreases count,
{
    if count == 0 {
        0
    } else {
        256 * big_endian(bytes, at, (count - 1) as nat) + bytes[at + count - 1]
    }
}

/// The compressed payload of chunk `(x, z)` in the region file `file`:
/// `Ok(None)` where the chunk lies outside `area` or the file has no record
/// of it, and an error where the record is malformed.
pub open spec fn located_payload(file: Seq<u8>, area: Area, x: int, z: int) -> Result<
    Option<Seq<u8>>,
    DecodeError,
> {
    let start = 4096 * big_endian(file, location_entry(x, z), 3);
    let declared = big_endian(file, start, 4);
    if !area.meets_chunk(x, z) {
        Ok(None)
    } else if file.len() < 4096 {
        Err(DecodeError::TruncatedHeader)
    } else if start == 0 {
        Ok(None)
    } else if start + 5 > file.len() {
        Err(DecodeError::TruncatedChunk)
    } else if declared == 0 {
        Err(DecodeError::MalformedLength)
    } else if start + 4 + declared > file.len() {
        Err(DecodeError::TruncatedChunk)
    } else if file[start + 4] != 2 {
        Err(DecodeError::UnsupportedCompression)
    } else {
        Ok(Some(file.subrange(start + 5, start + 4 + declared)))
    }
}

/// Reads three bytes as a number, most significant byte first.
fn read_u24(bytes: &[u8], at: usize) -> (value: u64)
    requires
        at + 3 <= bytes@.len(),
    ensures
        value == big_endian(bytes@, at as int, 3),
        value < 0x100_0000,
{
    reveal_with_fuel(big_endian, 4);
    (bytes[at] as u64) * 65536 + (bytes[at + 1] as u64) * 256 + (bytes[at + 2] as u64)
}

/// Reads four bytes as a number, most significant byte first.
fn read_u32(bytes: &[u8], at: usize) -> (value: u64)
    requires
        at + 4 <= bytes@.len(),
    ensures
        value == big_endian(bytes@, at as int, 4),
        value < 0x1_0000_0000,
{
    reveal_with_fuel(big_endian, 5);
    (bytes[at] as u64) * 16777216 + (bytes[at + 1] as u64) * 65536 + (bytes[at + 2] as u64) * 256
        + (bytes[at + 3] as u64)
}

/// A column of 24 sections, from height -64 up to 319.
pub struct Chunk {
    sections: Vec<Section>,
}

impl View for Chunk {
    type V = Seq<Section>;

    closed spec fn view(&self) -> Seq<Section> {
        self.sections@
    }
}

impl Chunk {
    #[verifier::type_invariant]
    spec fn well_formed(&self) -> bool {
        self.sections.len() == 24
    }

    /// The section of index `index`, for the indices that a chunk has.
    pub open spec fn spec_section(&self, index: int) -> Option<Section> {
        if 0 <= index < 24 {
            Some(self@[index])
        } else {
            None
        }
    }

    /// Finds the compressed payload of chunk `(x, z)` in a region file.
    ///
    /// A chunk whose footprint lies outside `area` is passed over without
    /// a look at the file.
    pub fn load<'a>(file: &'a [u8], area: &Area, x: i32, z: i32) -> (result: Result<
        Option<&'a [u8]>,
        DecodeError,
    >)
        ensures
            match result {
                Ok(Some(payload)) => located_payload(file@, *area, x as int, z as int) == Ok::<
                    Option<Seq<u8>>,
                    DecodeError,
                >(Some(payload@)),
                Ok(None) => located_payload(file@, *area, x as int, z as int) == Ok::<
                    Option<Seq<u8>>,
                    DecodeError,
                >(None),
                Err(error) => located_payload(file@, *area, x as int, z as int) == Err::<
                    Option<Seq<u8>>,
                    DecodeError,
                >(error),
            },
    {
        if !area.intersects_chunk(x, z) {
            return Ok(None);
        }
        if file.len() < 4096 {
            return Err(DecodeError::TruncatedHeader);
        }
        let slot_x: usize = crate::coords::local32(x);
        let slot_z: usize = crate::coords::local32(z);
        let entry: usize = 4 * (slot_z * 32 + slot_x);
        let sector: u64 = read_u24(file, entry);
        if sector == 0 {
            return Ok(None);
        }
        let start: u64 = sector * 4096;
        let len: u64 = file.len() as u64;
        if start + 5 > len {
            return Err(DecodeError::TruncatedChunk);
        }
        let declared: u64 = read_u32(file, start as usize);
        if declared == 0 {
            return Err(DecodeError::MalformedLength);
        }
        if start + 4 + declared > len {
            return Err(DecodeError::TruncatedChunk);
        }
        if file[(start + 4) as usize] != ZLIB {
            return Err(DecodeError::UnsupportedCompression);
        }
        Ok(Some(slice_subrange(file, (start + 5) as usize, (start + 4 + declared) as usize)))
    }

    /// Makes a chunk of its 24 sections, lowest first.
    pub fn new(sections: Vec<Section>) -> (result: Result<Chunk, DecodeError>)
        ensures
            match result {
                Ok(chunk) => sections@.len() == 24 && chunk@ == sections@,
                Err(error) => sections@.len() != 24 && error == DecodeError::WrongSectionCount,
            },
    {
        if sections.len() == CHUNK_SECTIONS {
            Ok(Chunk { sections })
        } else {
            Err(DecodeError::WrongSectionCount)
        }
    }

    /// Computes [`Chunk::spec_section`].
    pub fn section(&self, index: usize) -> (section: Option<&Section>)
        ensures
            match section {
                Some(found) => self.spec_section(index as int) == Some(*found),
                None => self.spec_section(index as int) is None,
            },
    {
        proof {
            use_type_invariant(self);
        }
        if index < CHUNK_SECTIONS {
            Some(&self.sections[index])
        } else {
            None
        }
    }
}

} // verus!
