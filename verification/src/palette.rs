//! The bit-packed array of palette indices of a section.
//!
//! Each 64-bit word holds as many indices as fit whole, lowest bits first;
//! the bits left over at the top of a word are unused.

use vstd::arithmetic::power2::pow2;
use vstd::prelude::*;

verus! {

/// How many voxels a section has.
pub const SECTION_VOXELS: usize = 4096;

/// The longest palette whose indices fit in 16 bits.
pub const MAX_PALETTE: usize = 65536;

/// The least `k` with `2^k >= n`.
pub open spec fn ceil_log2(n: nat) -> nat
    decreases n,
{
    if n <= 1 {
        0
    } else {
        1 + ceil_log2((n + 1) / 2)
    }
}

/// The width in bits of one index into a palette of `len` entries.
pub open spec fn index_bits(len: nat) -> nat {
    if ceil_log2(len) < 4 {
        4
    } else {
        ceil_log2(len)
    }
}

/// The 64 bits of a word read as an unsigned number.
pub open spec fn word_value(word: i64) -> nat {
    if word < 0 {
        (word + 0x1_0000_0000_0000_0000) as nat
    } else {
        word as nat
    }
}

/// How many indices of `bits` bits one word holds.
pub open spec fn fields_per_word(bits: nat) -> nat {
    64nat / bits
}

/// The `k`-th group of `bits` bits of `value`, counted from the low end.
pub open spec fn field(value: nat, bits: nat, k: nat) -> nat {
    (value / pow2(k * bits)) % pow2(bits)
}

/// The `i`-th index held by `words`, in array order.
pub open spec fn unpacked_index(words: Seq<i64>, bits: nat, i: int) -> nat {
    field(
        word_value(words[i / fields_per_word(bits) as int]),
        bits,
        (i % fields_per_word(bits) as int) as nat,
    )
}

/// Every index held by `words`, in array order.
pub open spec fn unpacked(words: Seq<i64>, bits: nat) -> Seq<nat> {
    Seq::new(words.len() * fields_per_word(bits), |i: int| unpacked_index(words, bits, i))
}

/// `ceil_log2` grows with its argument.
pub proof fn lemma_ceil_log2_grows(a: nat, b: nat)
    requires
        a <= b,
    ensures
        ceil_log2(a) <= ceil_log2(b),
    decreases b,
{
    if a > 1 {
        lemma_ceil_log2_grows((a + 1) / 2, (b + 1) / 2);
    }
}

/// `ceil_log2(n)` is the least exponent whose power of two reaches `n`.
pub proof fn lemma_ceil_log2_is_least(n: nat)
    requires
        n >= 1,
    ensures
        pow2(ceil_log2(n)) >= n,
        ceil_log2(n) > 0 ==> pow2((ceil_log2(n) - 1) as nat) < n,
    decreases n,
{
    vstd::arithmetic::power2::lemma2_to64();
    if n > 1 {
        let half = (n + 1) / 2;
        lemma_ceil_log2_is_least(half);
        vstd::arithmetic::power2::lemma_pow2_unfold(ceil_log2(n));
        if ceil_log2(half) > 0 {
            vstd::arithmetic::power2::lemma_pow2_unfold(ceil_log2(half));
        }
    }
}

/// The width of an index into a palette of at most 65536 entries is between
/// 4 and 16 bits, and wide enough for every index into the palette.
pub proof fn lemma_index_bits_fit(len: nat)
    requires
        1 <= len <= 65536,
    ensures
        4 <= index_bits(len) <= 16,
        pow2(index_bits(len)) >= len,
{
    lemma_ceil_log2_is_least(len);
    lemma_ceil_log2_grows(len, 65536);
    assert(ceil_log2(65536) == 16) by {
        reveal_with_fuel(ceil_log2, 18);
    }
    if ceil_log2(len) < 4 {
        vstd::arithmetic::power2::lemma_pow2_strictly_increases(ceil_log2(len), 4);
    }
}

/// Computes [`index_bits`].
pub fn bits_for(len: usize) -> (bits: u32)
    ensures
        bits == index_bits(len as nat),
        4 <= bits <= 64,
{
    let mut rest: usize = len;
    let mut bits: u32 = 0;
    proof {
        vstd::arithmetic::power2::lemma2_to64();
    }
    while rest > 1
        invariant
            rest <= pow2((64 - bits) as nat),
            bits <= 64,
            ceil_log2(len as nat) == bits + ceil_log2(rest as nat),
        decreases rest,
    {
        proof {
            vstd::arithmetic::power2::lemma2_to64();
            if bits < 64 {
                vstd::arithmetic::power2::lemma_pow2_unfold((64 - bits) as nat);
            }
        }
        rest = rest - rest / 2;
        bits = bits + 1;
    }
    if bits < 4 {
        4
    } else {
        bits
    }
}

/// Computes [`field`] on the bits of a word.
pub fn field_of(word: i64, bits: u32, k: u32) -> (value: u64)
    ensures
        value == field(word_value(word), bits as nat, k as nat),
{
    let raw: u64 = #[verifier::truncate]
    (word as u64);
    assert(word as u64 == (if word < 0i64 {
        (word + 0x1_0000_0000_0000_0000) as u64
    } else {
        word as u64
    })) by (bit_vector);
    assert(k * bits <= 0xffff_ffff_0000_0000) by (nonlinear_arith)
        requires
            0 <= k <= 0xffff_ffff,
            0 <= bits <= 0xffff_ffff,
    ;
    let shift: u64 = (k as u64) * (bits as u64);
    proof {
        vstd::arithmetic::power2::lemma2_to64();
        vstd::arithmetic::power2::lemma2_to64_rest();
        vstd::arithmetic::power2::lemma_pow2_pos(bits as nat);
        vstd::arithmetic::power2::lemma_pow2_pos(shift as nat);
        assert(shift == k as nat * bits as nat) by (nonlinear_arith)
            requires
                shift == k * bits,
        ;
    }
    if shift >= 64 {
        proof {
            if shift > 64 {
                vstd::arithmetic::power2::lemma_pow2_strictly_increases(64, shift as nat);
            }
            vstd::arithmetic::div_mod::lemma_basic_div(raw as int, pow2(shift as nat) as int);
            vstd::arithmetic::div_mod::lemma_small_mod(0, pow2(bits as nat));
        }
        return 0;
    }
    let shifted: u64 = raw >> shift;
    proof {
        vstd::bits::lemma_u64_shr_is_div(raw, shift);
    }
    if bits >= 64 {
        proof {
            if bits > 64 {
                vstd::arithmetic::power2::lemma_pow2_strictly_increases(64, bits as nat);
            }
            vstd::arithmetic::div_mod::lemma_small_mod(shifted as nat, pow2(bits as nat));
        }
        return shifted;
    }
    let wide: u64 = bits as u64;
    proof {
        vstd::bits::lemma_u64_pow2_no_overflow(bits as nat);
        vstd::bits::lemma_u64_shl_is_mul(1, wide);
        vstd::bits::lemma_u64_low_bits_mask_is_mod(shifted, bits as nat);
    }
    let mask: u64 = (1u64 << wide) - 1;
    shifted & mask
}

/// The number that holds `values` as groups of `bits` bits each, the first
/// value in the lowest bits.
pub open spec fn packed_value(values: Seq<nat>, bits: nat) -> nat
    decreases values.len(),
{
    if values.len() == 0 {
        0
    } else {
        values[0] + pow2(bits) * packed_value(values.drop_first(), bits)
    }
}

/// The word whose 64 bits, read as an unsigned number, are `value`.
pub open spec fn word_of(value: nat) -> i64 {
    if value >= 0x8000_0000_0000_0000 {
        (value - 0x1_0000_0000_0000_0000) as i64
    } else {
        value as i64
    }
}

/// How many words it takes to hold `count` indices of `bits` bits.
pub open spec fn words_for(count: nat, bits: nat) -> nat {
    ((count + fields_per_word(bits) - 1) / fields_per_word(bits) as int) as nat
}

/// The part of `values` that goes into word `word`.
pub open spec fn values_in_word(values: Seq<nat>, bits: nat, word: int) -> Seq<nat> {
    let from = word * fields_per_word(bits);
    let to = from + fields_per_word(bits);
    values.subrange(
        from,
        if to <= values.len() {
            to
        } else {
            values.len() as int
        },
    )
}

/// The words that hold `values` as indices of `bits` bits: as many to a
/// word as fit whole, lowest bits first, none across two words.
pub open spec fn packed(values: Seq<nat>, bits: nat) -> Seq<i64> {
    Seq::new(
        words_for(values.len(), bits),
        |word: int| word_of(packed_value(values_in_word(values, bits, word), bits)),
    )
}

/// Values of `bits` bits each pack into a number of as many bits as they
/// have together.
pub proof fn lemma_packed_value_fits(values: Seq<nat>, bits: nat)
    requires
        forall|i: int| 0 <= i < values.len() ==> values[i] < pow2(bits),
    ensures
        packed_value(values, bits) < pow2(values.len() * bits),
    decreases values.len(),
{
    vstd::arithmetic::power2::lemma2_to64();
    if values.len() > 0 {
        let rest = values.drop_first();
        lemma_packed_value_fits(rest, bits);
        vstd::arithmetic::power2::lemma_pow2_adds(bits, rest.len() * bits);
        assert(values.len() * bits == bits + rest.len() * bits) by (nonlinear_arith)
            requires
                values.len() == rest.len() + 1,
        ;
        let base = pow2(bits) as int;
        let high = pow2(rest.len() * bits) as int;
        let tail = packed_value(rest, bits) as int;
        let head = values[0] as int;
        assert(head + base * tail < base * high) by (nonlinear_arith)
            requires
                0 <= head < base,
                0 <= tail < high,
        ;
    }
}

/// A group of bits of a packed number is the value that was packed there.
pub proof fn lemma_field_of_packed_value(values: Seq<nat>, bits: nat, k: nat)
    requires
        forall|i: int| 0 <= i < values.len() ==> values[i] < pow2(bits),
        k < values.len(),
    ensures
        field(packed_value(values, bits), bits, k) == values[k as int],
    decreases k,
{
    vstd::arithmetic::power2::lemma2_to64();
    vstd::arithmetic::power2::lemma_pow2_pos(bits);
    let rest = values.drop_first();
    let base = pow2(bits) as int;
    let whole = packed_value(values, bits) as int;
    let tail = packed_value(rest, bits) as int;
    assert(whole == tail * base + values[0]) by (nonlinear_arith)
        requires
            whole == values[0] + base * tail,
    ;
    vstd::arithmetic::div_mod::lemma_fundamental_div_mod_converse(
        whole,
        base,
        tail,
        values[0] as int,
    );
    if k == 0 {
        assert(k * bits == 0) by (nonlinear_arith)
            requires
                k == 0,
        ;
    } else {
        let below = ((k - 1) * bits) as nat;
        vstd::arithmetic::power2::lemma_pow2_pos(below);
        vstd::arithmetic::power2::lemma_pow2_adds(bits, below);
        assert(k * bits == bits + below) by (nonlinear_arith)
            requires
                below == (k - 1) * bits,
                k >= 1,
        ;
        vstd::arithmetic::div_mod::lemma_div_denominator(whole, base, pow2(below) as int);
        lemma_field_of_packed_value(rest, bits, (k - 1) as nat);
    }
}

/// Unpacking gives back what was packed: the first indices that the packed
/// words hold are the values, in order.
pub proof fn lemma_unpacking_undoes_packing(values: Seq<nat>, bits: nat)
    requires
        1 <= bits <= 64,
        forall|i: int| 0 <= i < values.len() ==> values[i] < pow2(bits),
    ensures
        unpacked(packed(values, bits), bits).len() >= values.len(),
        unpacked(packed(values, bits), bits).take(values.len() as int) == values,
{
    let per = fields_per_word(bits) as int;
    let words = packed(values, bits);
    let count = values.len() as int;
    assert(1 <= per <= 64 && per * bits <= 64) by (nonlinear_arith)
        requires
            1 <= bits <= 64,
            per == 64int / (bits as int),
    ;
    assert(words.len() * per >= count && (words.len() - 1) * per < count + per) by (nonlinear_arith)
        requires
            per >= 1,
            count >= 0,
            words.len() == (count + per - 1) / per,
    ;
    assert forall|i: int| 0 <= i < count implies unpacked(words, bits)[i] == values[i] by {
        let word = i / per;
        let place = i % per;
        assert(0 <= word < words.len() && 0 <= place < per && i == word * per + place) by (nonlinear_arith)
            requires
                0 <= i < count,
                per >= 1,
                words.len() * per >= count,
                word == i / per,
                place == i % per,
        ;
        let part = values_in_word(values, bits, word);
        assert forall|j: int| 0 <= j < part.len() implies part[j] < pow2(bits) by {
            assert(part[j] == values[word * per + j]);
        }
        assert(part.len() <= per && place < part.len());
        lemma_packed_value_fits(part, bits);
        vstd::arithmetic::power2::lemma2_to64();
        if part.len() * bits < 64 {
            vstd::arithmetic::power2::lemma_pow2_strictly_increases(part.len() * bits, 64);
        }
        assert(part.len() * bits <= 64) by (nonlinear_arith)
            requires
                part.len() <= per,
                per * bits <= 64,
        ;
        assert(word_value(word_of(packed_value(part, bits))) == packed_value(part, bits));
        lemma_field_of_packed_value(part, bits, place as nat);
        assert(part[place] == values[i]);
    }
    assert(unpacked(words, bits).take(count) =~= values);
}

} // verus!
