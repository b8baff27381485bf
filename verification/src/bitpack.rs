//! Motorola (big-endian, MSB-first) bit fields inside a byte buffer.
//!
//! Bit 0 of the buffer is the most significant bit of byte 0; indices grow
//! towards each byte's least significant bit and then into the next byte. A
//! field of `len` bits starting at bit `start` occupies the Motorola bit
//! indices `start .. start + len`, most significant bit first.

use vstd::prelude::*;

verus! {

use vstd::arithmetic::div_mod::{
    lemma_fundamental_div_mod,
    lemma_mod_breakdown,
    lemma_mod_division_less_than_divisor,
    lemma_small_mod,
};
use vstd::arithmetic::power2::{
    lemma2_to64,
    lemma2_to64_rest,
    lemma_pow2_pos,
    lemma_pow2_strictly_increases,
    lemma_pow2_unfold,
    pow2,
};
use vstd::bits::{
    lemma_u64_low_bits_mask_is_mod,
    lemma_u64_shl_is_mul,
    lemma_u64_shr_is_div,
    low_bits_mask,
};

/// Whether bit `pos` (0 = least significant) of byte `b` is set.
pub open spec fn byte_bit(b: u8, pos: u8) -> bool {
    (b >> pos) & 1 == 1
}

/// Whether the buffer bit with Motorola index `i` is set.
pub open spec fn bit_at(data: Seq<u8>, i: int) -> bool {
    byte_bit(data[i / 8], (7 - i % 8) as u8)
}

/// The unsigned value of the `len`-bit field at Motorola bit `start`:
/// the bit at `start` is the most significant bit of the value.
pub open spec fn field_val(data: Seq<u8>, start: int, len: nat) -> nat
    decreases len,
{
    if len == 0 {
        0
    } else {
        2 * field_val(data, start, (len - 1) as nat) + (if bit_at(data, start + len - 1) {
            1nat
        } else {
            0nat
        })
    }
}

/// Bit `k` of a field that carries the low `len` bits of `value`,
/// counted MSB-first: bit 0 of the field is bit `len - 1` of `value`.
pub open spec fn value_bit(value: u64, len: nat, k: int) -> bool {
    (value >> ((len - 1 - k) as u64)) & 1 == 1
}

/// The two's-complement reading of the low `len` bits of `raw`.
pub open spec fn sign_extended(raw: nat, len: nat) -> int {
    let m = raw % pow2(len);
    if m < pow2((len - 1) as nat) {
        m as int
    } else {
        m - pow2(len)
    }
}

/// A field never exceeds its width.
pub proof fn lemma_field_val_bound(data: Seq<u8>, start: int, len: nat)
    ensures
        field_val(data, start, len) < pow2(len),
    decreases len,
{
    if len == 0 {
        lemma2_to64();
    } else {
        lemma_field_val_bound(data, start, (len - 1) as nat);
        lemma_pow2_unfold(len);
    }
}

/// Two buffers that agree on every bit of a field agree on its value.
pub proof fn lemma_field_val_unchanged(d1: Seq<u8>, d2: Seq<u8>, start: int, len: nat)
    requires
        forall|k: int| 0 <= k < len ==> #[trigger] bit_at(d1, start + k) == bit_at(d2, start + k),
    ensures
        field_val(d1, start, len) == field_val(d2, start, len),
    decreases len,
{
    if len > 0 {
        lemma_field_val_unchanged(d1, d2, start, (len - 1) as nat);
        assert(bit_at(d1, start + len - 1) == bit_at(d2, start + len - 1));
    }
}

/// A field splits at any point: the high part is shifted past the low part.
pub proof fn lemma_field_val_split(data: Seq<u8>, start: int, len1: nat, len2: nat)
    ensures
        field_val(data, start, len1 + len2) == field_val(data, start, len1) * pow2(len2)
            + field_val(data, start + len1, len2),
    decreases len2,
{
    if len2 == 0 {
        lemma2_to64();
    } else {
        lemma_field_val_split(data, start, len1, (len2 - 1) as nat);
        lemma_pow2_unfold(len2);
        let f1 = field_val(data, start, len1);
        let p = pow2((len2 - 1) as nat);
        assert(2 * (f1 * p) == f1 * (2 * p)) by (nonlinear_arith);
    }
}

/// Bit `len - 1 - k` of `value` seen through a one-position shift.
proof fn lemma_shr_shr(value: u64, s: u64)
    by (bit_vector)
    requires
        s < 63,
    ensures
        (value >> 1u64) >> s == value >> ((s + 1) as u64),
{
}

/// A field whose bits are the low `len` bits of `value`, MSB first,
/// holds the value of those bits.
pub proof fn lemma_field_val_from_value_bits(data: Seq<u8>, start: int, len: nat, value: u64)
    requires
        len <= 64,
        forall|k: int| 0 <= k < len ==> bit_at(data, start + k) == value_bit(value, len, k),
    ensures
        field_val(data, start, len) == (value as nat) % pow2(len),
    decreases len,
{
    if len == 0 {
        lemma2_to64();
        lemma_small_mod(0, 1);
        assert((value as nat) % pow2(0) == (value as nat) % 1);
        assert((value as nat) % 1 == 0) by {
            lemma_fundamental_div_mod(value as int, 1);
        }
    } else {
        let half = value >> 1u64;
        assert forall|k: int| 0 <= k < len - 1 implies #[trigger] bit_at(data, start + k)
            == value_bit(half, (len - 1) as nat, k) by {
            assert(bit_at(data, start + k) == value_bit(value, len, k));
            lemma_shr_shr(value, (len - 2 - k) as u64);
        }
        lemma_field_val_from_value_bits(data, start, (len - 1) as nat, half);
        // the last field bit is the least significant bit of `value`
        assert(bit_at(data, start + len - 1) == value_bit(value, len, len - 1));
        assert(value >> ((len - 1 - (len - 1)) as u64) == value >> 0u64);
        assert(value >> 0u64 == value) by (bit_vector);
        // arithmetic: peel the low bit off the modulus
        lemma_u64_shr_is_div(value, 1);
        lemma2_to64();
        lemma_u64_low_bits_mask_is_mod(value, 1);
        assert(low_bits_mask(1) == 1) by {
            lemma_pow2_unfold(1);
            lemma2_to64();
        }
        lemma_pow2_pos((len - 1) as nat);
        lemma_mod_breakdown(value as int, 2, pow2((len - 1) as nat) as int);
        lemma_pow2_unfold(len);
    }
}

/// Law: a field that holds the bits of `value`, as `set_bits_m` writes them,
/// reads back as exactly `value`, as `get_bits_m` reads it, whenever `value`
/// fits in the field width.
pub proof fn lemma_field_round_trip(data: Seq<u8>, start: int, len: nat, value: u64)
    requires
        1 <= len <= 64,
        (value as nat) < pow2(len),
        forall|k: int| 0 <= k < len ==> bit_at(data, start + k) == value_bit(value, len, k),
    ensures
        field_val(data, start, len) == value,
{
    lemma_field_val_from_value_bits(data, start, len, value);
    lemma_pow2_pos(len);
    lemma_small_mod(value as nat, pow2(len));
}

/// A sign-extended `len`-bit field lies in the signed `len`-bit range.
pub proof fn lemma_sign_extended_bounds(raw: nat, len: nat)
    requires
        1 <= len <= 64,
    ensures
        -pow2((len - 1) as nat) <= sign_extended(raw, len) < pow2((len - 1) as nat),
{
    lemma_pow2_pos(len);
    lemma_pow2_pos((len - 1) as nat);
    lemma_mod_division_less_than_divisor(raw as int, pow2(len) as int);
    lemma_pow2_unfold(len);
}

/// Law: an all-zero field sign-extends to zero, for every field width.
pub proof fn lemma_sign_extend_zero(len: nat)
    requires
        1 <= len <= 64,
    ensures
        sign_extended(0, len) == 0,
{
    lemma_pow2_pos(len);
    lemma_pow2_pos((len - 1) as nat);
    lemma_small_mod(0, pow2(len));
}

/// Reads the `len`-bit field at Motorola bit `start` out of `data`.
pub fn get_bits_m(data: &[u8], start: u16, len: u16) -> (v: u64)
    requires
        1 <= len <= 64,
        start + len <= 8 * data@.len(),
    ensures
        v as nat == field_val(data@, start as int, len as nat),
        (v as nat) < pow2(len as nat),
{
    proof {
        lemma2_to64();
        lemma2_to64_rest();
    }
    let mut v: u64 = 0;
    let mut i: u16 = 0;
    while i < len
        invariant
            i <= len,
            1 <= len <= 64,
            start + len <= 8 * data@.len(),
            v as nat == field_val(data@, start as int, i as nat),
            (v as nat) < pow2(i as nat),
            pow2(63) == 0x8000000000000000,
        decreases len - i,
    {
        let bit_index: usize = start as usize + i as usize;
        let byte: usize = bit_index / 8;
        let sh: u8 = (7 - (bit_index % 8)) as u8;
        proof {
            assert(byte < data@.len());
            assert(byte == (start + i) as int / 8);
            assert(sh == (7 - (start + i) as int % 8) as u8);
        }
        let byte_val: u8 = data[byte];
        let bit: u64 = ((byte_val >> sh) & 1) as u64;
        proof {
            assert(bit <= 1) by (bit_vector)
                requires
                    bit == ((byte_val >> sh) & 1) as u64,
            ;
            assert((bit == 1) == bit_at(data@, (start + i) as int));
            if (i as nat) < 63 {
                lemma_pow2_strictly_increases(i as nat, 63);
            }
            assert((v << 1u64) | bit == 2 * v + bit) by (bit_vector)
                requires
                    v < 0x8000000000000000u64,
                    bit <= 1,
            ;
            lemma_pow2_unfold((i + 1) as nat);
        }
        v = (v << 1u64) | bit;
        i = i + 1;
    }
    v
}

/// How one read-modify-write of a byte changes each of its bits.
proof fn lemma_byte_update(b: u8, b1: u8, sh: u8, bit: u8)
    by (bit_vector)
    requires
        sh < 8,
        bit <= 1,
        b1 == (if bit == 1 {
            b | (1u8 << sh)
        } else {
            b & !(1u8 << sh)
        }),
    ensures
        forall|p: u8|
            p < 8 ==> #[trigger] byte_bit(b1, p) == (if p == sh {
                bit == 1
            } else {
                byte_bit(b, p)
            }),
{
}

/// Writes the low `len` bits of `value`, most significant bit first, into the
/// field at Motorola bit `start`, leaving every other bit of `data` as it was.
pub fn set_bits_m(data: &mut Vec<u8>, start: u16, len: u16, value: u64)
    requires
        1 <= len <= 64,
        start + len <= 8 * old(data)@.len(),
    ensures
        final(data)@.len() == old(data)@.len(),
        forall|j: int|
            0 <= j < 8 * final(data)@.len() && !(start <= j < start + len) ==> bit_at(
                final(data)@,
                j,
            ) == bit_at(old(data)@, j),
        forall|k: int|
            0 <= k < len ==> bit_at(final(data)@, start + k) == value_bit(value, len as nat, k),
        field_val(final(data)@, start as int, len as nat) == (value as nat) % pow2(len as nat),
{
    let mut k: u16 = 0;
    while k < len
        invariant
            k <= len,
            1 <= len <= 64,
            start + len <= 8 * data@.len(),
            data@.len() == old(data)@.len(),
            forall|j: int|
                0 <= j < 8 * data@.len() && !(start <= j < start + k) ==> bit_at(data@, j)
                    == bit_at(old(data)@, j),
            forall|j: int|
                0 <= j < k ==> bit_at(data@, start + j) == value_bit(value, len as nat, j),
        decreases len - k,
    {
        let ghost pre = data@;
        let bit_index: usize = start as usize + k as usize;
        let byte: usize = bit_index / 8;
        let sh: u8 = (7 - (bit_index % 8)) as u8;
        let vsh: u16 = len - 1 - k;
        let bit: u8 = ((value >> (vsh as u64)) & 1) as u8;
        proof {
            assert(byte < data@.len());
            assert(((value >> (vsh as u64)) & 1) <= 1) by (bit_vector);
        }
        let mask: u8 = 1u8 << sh;
        let b0: u8 = data[byte];
        let b1: u8 = if bit == 1 {
            b0 | mask
        } else {
            b0 & !mask
        };
        data[byte] = b1;
        proof {
            lemma_byte_update(b0, b1, sh, bit);
            assert(byte == bit_index as int / 8 && sh as int == 7 - bit_index as int % 8);
            assert forall|j: int|
                0 <= j < 8 * data@.len() && j != bit_index implies bit_at(data@, j) == bit_at(
                pre,
                j,
            ) by {
                lemma_fundamental_div_mod(j, 8);
                lemma_fundamental_div_mod(bit_index as int, 8);
                lemma_mod_division_less_than_divisor(j, 8);
                if j / 8 == byte as int {
                    assert(j % 8 != bit_index as int % 8);
                    assert((7 - j % 8) as u8 != sh);
                    assert(byte_bit(data@[j / 8], (7 - j % 8) as u8) == byte_bit(
                        pre[j / 8],
                        (7 - j % 8) as u8,
                    ));
                }
            }
            assert(bit_at(data@, bit_index as int) == (bit == 1));
            assert(value_bit(value, len as nat, k as int) == (bit == 1));
        }
        k = k + 1;
    }
    proof {
        lemma_field_val_from_value_bits(data@, start as int, len as nat, value);
    }
}

/// Treats the low `len` bits of `value` as a two's-complement integer and
/// extends its sign to 64 bits.
pub fn sign_extend(value: u64, len: u16) -> (r: i64)
    requires
        1 <= len <= 64,
    ensures
        r as int == sign_extended(value as nat, len as nat),
{
    proof {
        lemma2_to64();
        lemma2_to64_rest();
    }
    let masked: u64 = if len == 64 {
        proof {
            lemma_small_mod(value as nat, pow2(64));
        }
        value
    } else {
        proof {
            lemma_u64_shl_is_mul(1u64, len as u64);
            if (len as nat) < 63 {
                lemma_pow2_strictly_increases(len as nat, 63);
            }
            lemma_u64_low_bits_mask_is_mod(value, len as nat);
            assert(low_bits_mask(len as nat) == pow2(len as nat) - 1);
        }
        value & ((1u64 << (len as u64)) - 1)
    };
    proof {
        assert(masked as nat == (value as nat) % pow2(len as nat));
        lemma_pow2_pos(len as nat);
        lemma_mod_division_less_than_divisor(value as int, pow2(len as nat) as int);
        lemma_u64_shl_is_mul(1u64, (len - 1) as u64);
        if ((len - 1) as nat) < 63 {
            lemma_pow2_strictly_increases((len - 1) as nat, 63);
        }
    }
    let half: u64 = 1u64 << ((len - 1) as u64);
    if masked < half {
        masked as i64
    } else if len == 64 {
        -((u64::MAX - masked) as i64) - 1
    } else {
        proof {
            lemma_u64_shl_is_mul(1u64, len as u64);
            lemma_pow2_unfold(len as nat);
        }
        -(((1u64 << (len as u64)) - masked) as i64)
    }
}

} // verus!
