//! Regions: 32 by 32 grids of chunks, one region file each.

use vstd::prelude::*;

use crate::chunk::{located_payload, Chunk, DecodeError};
use crate::coords::Area;

verus! {

/// How many chunk slots a region has.
pub const REGION_SLOTS: usize = 1024;

/// The compressed payloads of the first `count` chunk slots of the region
/// `(region_x, region_z)`, row by row, or the error of the first slot that
/// has one.
pub open spec fn located_payloads(
    file: Seq<u8>,
    area: Area,
    region_x: int,
    region_z: int,
    count: nat,
) -> Result<Seq<Option<Seq<u8>>>, DecodeError>
    decreases count,
{
    if count == 0 {
        Ok(Seq::empty())
    } else {
        let slot = count - 1;
        match located_payloads(file, area, region_x, region_z, slot as nat) {
            Err(error) => Err(error),
            Ok(before) => match located_payload(
                file,
                area,
                32 * region_x + slot % 32,
                32 * region_z + slot / 32,
            ) {
                Err(error) => Err(error),
                Ok(payload) => Ok(before.push(payload)),
            },
        }
    }
}

/// Once a slot has an error, every longer run of slots has the same one.
pub proof fn lemma_first_error_stays(
    file: Seq<u8>,
    area: Area,
    region_x: int,
    region_z: int,
    count: nat,
    longer: nat,
)
    requires
        count <= longer,
        located_payloads(file, area, region_x, region_z, count) is Err,
    ensures
        located_payloads(file, area, region_x, region_z, longer) == located_payloads(
            file,
            area,
            region_x,
            region_z,
            count,
        ),
    decreases longer,
{
    if count < longer {
        lemma_first_error_stays(file, area, region_x, region_z, count, (longer - 1) as nat);
    }
}

/// Whether `payloads` are the bytes of `located`, slot by slot.
pub open spec fn payloads_match(payloads: Seq<Option<&[u8]>>, located: Seq<Option<Seq<u8>>>) -> bool {
    &&& payloads.len() == located.len()
    &&& forall|i: int|
        0 <= i < payloads.len() ==> match #[trigger] payloads[i] {
            Some(bytes) => located[i] == Some(bytes@),
            None => located[i] is None,
        }
}

/// A 32 by 32 grid of chunks; a slot is empty where the chunk was never
/// generated or was not asked for.
pub struct Region {
    chunks: Vec<Option<Chunk>>,
}

impl View for Region {
    type V = Seq<Option<Chunk>>;

    closed spec fn view(&self) -> Seq<Option<Chunk>> {
        self.chunks@
    }
}

impl Region {
    #[verifier::type_invariant]
    spec fn well_formed(&self) -> bool {
        self.chunks.len() == 1024
    }

    /// The chunk in slot `(slot_x, slot_z)`, if the region has one there.
    pub open spec fn spec_chunk(&self, slot_x: int, slot_z: int) -> Option<Chunk> {
        if 0 <= slot_x < 32 && 0 <= slot_z < 32 {
            self@[slot_z * 32 + slot_x]
        } else {
            None
        }
    }

    /// Finds the compressed payload of each chunk of region
    /// `(region_x, region_z)` in the region file `file`: 1024 slots, row by
    /// row, slot `32 * z + x` for the chunk `(32 * region_x + x,
    /// 32 * region_z + z)`.
    pub fn payloads<'a>(file: &'a [u8], area: &Area, region_x: i32, region_z: i32) -> (result:
        Result<Vec<Option<&'a [u8]>>, DecodeError>)
        ensures
            match result {
                Ok(payloads) => match located_payloads(
                    file@,
                    *area,
                    region_x as int,
                    region_z as int,
                    1024,
                ) {
                    Ok(located) => payloads_match(payloads@, located),
                    Err(_) => false,
                },
                Err(error) => located_payloads(file@, *area, region_x as int, region_z as int, 1024)
                    == Err::<Seq<Option<Seq<u8>>>, DecodeError>(error),
            },
    {
        let mut payloads: Vec<Option<&'a [u8]>> = Vec::new();
        let mut slot: usize = 0;
        while slot < REGION_SLOTS
            invariant
                slot <= 1024,
                payloads.len() == slot,
                match located_payloads(file@, *area, region_x as int, region_z as int, slot as nat) {
                    Ok(located) => payloads_match(payloads@, located),
                    Err(_) => false,
                },
            decreases 1024 - slot,
        {
            let ghost before = located_payloads(
                file@,
                *area,
                region_x as int,
                region_z as int,
                slot as nat,
            )->Ok_0;
            let x: i64 = 32 * (region_x as i64) + (slot % 32) as i64;
            let z: i64 = 32 * (region_z as i64) + (slot / 32) as i64;
            let payload: Option<&'a [u8]> = if x < i32::MIN as i64 || x > i32::MAX as i64 || z
                < i32::MIN as i64 || z > i32::MAX as i64 {
                None
            } else {
                match Chunk::load(file, area, x as i32, z as i32) {
                    Ok(payload) => payload,
                    Err(error) => {
                        proof {
                            assert(located_payloads(
                                file@,
                                *area,
                                region_x as int,
                                region_z as int,
                                (slot + 1) as nat,
                            ) == Err::<Seq<Option<Seq<u8>>>, DecodeError>(error));
                            lemma_first_error_stays(
                                file@,
                                *area,
                                region_x as int,
                                region_z as int,
                                (slot + 1) as nat,
                                1024,
                            );
                        }
                        return Err(error);
                    },
                }
            };
            payloads.push(payload);
            slot += 1;
            proof {
                let located = before.push(located_payload(file@, *area, x as int, z as int)->Ok_0);
                assert(located_payloads(
                    file@,
                    *area,
                    region_x as int,
                    region_z as int,
                    slot as nat,
                ) == Ok::<Seq<Option<Seq<u8>>>, DecodeError>(located));
                assert(payloads_match(payloads@, located));
            }
        }
        Ok(payloads)
    }

    /// Makes a region of its 1024 chunk slots, row by row: slot
    /// `32 * z + x` for the chunk in column `x` of row `z`.
    pub fn new(chunks: Vec<Option<Chunk>>) -> (result: Result<Region, DecodeError>)
        ensures
            match result {
                Ok(region) => chunks@.len() == 1024 && region@ == chunks@,
                Err(error) => chunks@.len() != 1024 && error == DecodeError::WrongSlotCount,
            },
    {
        if chunks.len() == REGION_SLOTS {
            Ok(Region { chunks })
        } else {
            Err(DecodeError::WrongSlotCount)
        }
    }

    /// Computes [`Region::spec_chunk`].
    pub fn chunk(&self, slot_x: usize, slot_z: usize) -> (chunk: Option<&Chunk>)
        ensures
            match chunk {
                Some(found) => self.spec_chunk(slot_x as int, slot_z as int) == Some(*found),
                None => self.spec_chunk(slot_x as int, slot_z as int) is None,
            },
    {
        proof {
            use_type_invariant(self);
        }
        if slot_x < 32 && slot_z < 32 {
            self.chunks[slot_z * 32 + slot_x].as_ref()
        } else {
            None
        }
    }
}

/// The index of the first dot of `text` at or after `from`, or the length
/// of `text` where there is none.
pub open spec fn next_dot(text: Seq<u8>, from: int) -> int
    decreases text.len() - from,
{
    if from >= text.len() {
        text.len() as int
    } else if text[from] == 46 {
        from
    } else {
        next_dot(text, from + 1)
    }
}

/// Whether `text` is one or more decimal digits.
pub open spec fn is_digits(text: Seq<u8>) -> bool {
    text.len() > 0 && forall|i: int| 0 <= i < text.len() ==> 48 <= #[trigger] text[i] <= 57
}

/// The number that the decimal digits `text` spell.
pub open spec fn digits_value(text: Seq<u8>) -> int
    decreases text.len(),
{
    if text.len() == 0 {
        0
    } else {
        10 * digits_value(text.drop_last()) + (text.last() - 48)
    }
}

/// The 32-bit number that `text` spells: a sign, which may be left out,
/// then digits.
pub open spec fn parsed_number(text: Seq<u8>) -> Option<int> {
    let signed = text.len() > 0 && (text[0] == 45 || text[0] == 43);
    let digits = if signed {
        text.drop_first()
    } else {
        text
    };
    let value = if signed && text[0] == 45 {
        -digits_value(digits)
    } else {
        digits_value(digits)
    };
    if is_digits(digits) && -0x8000_0000 <= value <= 0x7fff_ffff {
        Some(value)
    } else {
        None
    }
}

/// The region coordinates that a region file's name gives: the second and
/// the third of the parts that dots split the name into, as numbers.
pub open spec fn parsed_file_name(name: Seq<u8>) -> Option<(int, int)> {
    let first = next_dot(name, 0);
    let second = next_dot(name, first + 1);
    let third = next_dot(name, second + 1);
    if first >= name.len() || second >= name.len() {
        None
    } else {
        match (
            parsed_number(name.subrange(first + 1, second)),
            parsed_number(name.subrange(second + 1, third)),
        ) {
            (Some(x), Some(z)) => Some((x, z)),
            _ => None,
        }
    }
}

/// More digits never spell a smaller number.
proof fn lemma_digits_value_grows(text: Seq<u8>, shorter: int)
    requires
        0 <= shorter <= text.len(),
        forall|i: int| 0 <= i < text.len() ==> 48 <= #[trigger] text[i] <= 57,
    ensures
        0 <= digits_value(text.take(shorter)) <= digits_value(text),
    decreases text.len() - shorter,
{
    if shorter == 0 {
        lemma_digits_value_grows_from_zero(text);
        assert(text.take(0).len() == 0);
    } else if shorter < text.len() {
        lemma_digits_value_grows(text, shorter + 1);
        assert(text.take(shorter + 1).drop_last() =~= text.take(shorter));
        lemma_digits_value_grows_from_zero(text.take(shorter));
    } else {
        assert(text.take(shorter) =~= text);
        lemma_digits_value_grows_from_zero(text);
    }
}

/// Digits spell a number that is not negative.
proof fn lemma_digits_value_grows_from_zero(text: Seq<u8>)
    requires
        forall|i: int| 0 <= i < text.len() ==> 48 <= #[trigger] text[i] <= 57,
    ensures
        0 <= digits_value(text),
    decreases text.len(),
{
    if text.len() > 0 {
        lemma_digits_value_grows_from_zero(text.drop_last());
    }
}

/// Computes [`next_dot`].
fn find_dot(text: &[u8], from: usize) -> (dot: usize)
    requires
        from <= text@.len(),
    ensures
        dot == next_dot(text@, from as int),
        from <= dot <= text@.len(),
{
    let mut at: usize = from;
    while at < text.len() && text[at] != 46
        invariant
            from <= at <= text@.len(),
            next_dot(text@, at as int) == next_dot(text@, from as int),
        decreases text@.len() - at,
    {
        at = at + 1;
    }
    at
}

/// Computes [`parsed_number`] on `text[from..to]`.
#[verifier::loop_isolation(false)]
fn parse_number(text: &[u8], from: usize, to: usize) -> (number: Option<i32>)
    requires
        from <= to <= text@.len(),
    ensures
        match number {
            Some(value) => parsed_number(text@.subrange(from as int, to as int)) == Some(
                value as int,
            ),
            None => parsed_number(text@.subrange(from as int, to as int)) is None,
        },
{
    let ghost part = text@.subrange(from as int, to as int);
    let signed = from < to && (text[from] == 45 || text[from] == 43);
    let negative = signed && text[from] == 45;
    let start: usize = if signed {
        from + 1
    } else {
        from
    };
    let ghost digits = text@.subrange(start as int, to as int);
    proof {
        assert(part.len() > 0 ==> part[0] == text@[from as int]);
        if signed {
            assert(part.drop_first() =~= digits);
        } else {
            assert(part =~= digits);
        }
    }
    if start == to {
        return None;
    }
    let mut value: i64 = 0;
    let mut at: usize = start;
    while at < to
        invariant
            start <= at <= to <= text@.len(),
            digits == text@.subrange(start as int, to as int),
            forall|i: int| 0 <= i < at - start ==> 48 <= #[trigger] digits[i] <= 57,
            value == digits_value(digits.take(at - start)),
            0 <= value <= 0x8000_0000,
        decreases to - at,
    {
        let byte = text[at];
        assert(byte == digits[at - start]);
        if byte < 48 || byte > 57 {
            return None;
        }
        let ghost before = value;
        value = 10 * value + (byte - 48) as i64;
        proof {
            assert(digits.take(at - start + 1).drop_last() =~= digits.take(at - start));
            assert(value == digits_value(digits.take(at - start + 1)));
        }
        if value > 0x8000_0000 {
            proof {
                if is_digits(digits) {
                    lemma_digits_value_grows(digits, at - start + 1);
                }
            }
            return None;
        }
        at = at + 1;
    }
    proof {
        assert(digits.take(to - start) =~= digits);
        assert(is_digits(digits));
    }
    if negative {
        Some((-value) as i32)
    } else if value > 0x7fff_ffff {
        None
    } else {
        Some(value as i32)
    }
}

impl Region {
    /// Reads the coordinates of a region off the name of its file, which
    /// has the form `r.<x>.<z>.mca`: the parts between the first dots are
    /// what counts.
    pub fn parse_file_name(file_name: &[u8]) -> (location: Option<(i32, i32)>)
        ensures
            match location {
                Some((x, z)) => parsed_file_name(file_name@) == Some((x as int, z as int)),
                None => parsed_file_name(file_name@) is None,
            },
    {
        let first = find_dot(file_name, 0);
        if first >= file_name.len() {
            return None;
        }
        let second = find_dot(file_name, first + 1);
        if second >= file_name.len() {
            return None;
        }
        let third = find_dot(file_name, second + 1);
        let x = match parse_number(file_name, first + 1, second) {
            Some(x) => x,
            None => {
                return None;
            },
        };
        match parse_number(file_name, second + 1, third) {
            Some(z) => Some((x, z)),
            None => None,
        }
    }
}

} // verus!
