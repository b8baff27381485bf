//! Message-level encode, decode and dispatch for the radar protocol.
//!
//! Each outgoing message is built into a fresh zeroed 8-byte payload by
//! writing its signals through `set_bits_m`; each received message is read
//! field by field through `get_bits_m` and `sign_extend`. Physical values
//! enter and leave these functions in the raw integer domain of the signal
//! table (the physical value divided by the signal's scale factor, rounded);
//! the floating-point scaling itself is the caller's one-line edge.
//!
//! Several signals of this protocol overlap earlier ones in the same frame
//! (the validity bits of the ESC run-1 message sit inside the yaw-rate
//! field, the EPS angular-speed byte sits inside the angle field, and the
//! ABS run-1 validity bit sits inside the speed field). Signals are written
//! in table order, so a later signal overwrites the overlapped bits; the
//! contracts below state the final payload exactly, overlap included.

use vstd::prelude::*;

verus! {

use vstd::arithmetic::div_mod::{
    lemma_fundamental_div_mod_converse,
    lemma_mod_mod,
    lemma_small_mod,
};
use vstd::arithmetic::power2::{lemma2_to64, lemma2_to64_rest, pow2};
use crate::bitpack::{
    bit_at,
    field_val,
    get_bits_m,
    lemma_field_val_bound,
    lemma_field_val_split,
    lemma_field_val_unchanged,
    lemma_sign_extended_bounds,
    set_bits_m,
    sign_extend,
    sign_extended,
};
use crate::types::{
    calibration_status_of,
    motion_pattern_of,
    object_type_of,
    vehicle_gear_code,
    CalibrationStatus,
    DecodeError,
    FrsStatus,
    MotionPattern,
    ObjectType,
    ObjPart1,
    ObjPart2,
    VehicleGear,
    ID_ABS_FAULT,
    ID_ABS_RUN1,
    ID_ABS_RUN2,
    ID_EPS_RUN,
    ID_ESC_RUN1,
    ID_ESC_RUN2,
    ID_FRS_OBJ_PART1_BASE,
    ID_FRS_OBJ_PART2_BASE,
    ID_FRS_STATUS,
};

/// One CAN frame ready for transmission: an 11-bit identifier and its
/// 8-byte payload.
#[derive(Debug, Clone)]
pub struct Frame {
    pub id: u32,
    pub payload: Vec<u8>,
}

/// `x` saturated to the closed interval `[lo, hi]`.
pub open spec fn clamp_spec(x: int, lo: int, hi: int) -> int {
    if x < lo {
        lo
    } else if x > hi {
        hi
    } else {
        x
    }
}

/// The 16-bit two's-complement pattern of `x`; meaningful for
/// `-0x8000 <= x <= 0x7FFF`.
pub open spec fn tc16(x: int) -> nat {
    if x >= 0 {
        x as nat
    } else {
        (x + 0x10000) as nat
    }
}

/// The wheel-validity payload of the ESC run-2 message: four 2-bit codes.
pub open spec fn esc_run2_payload(p: Seq<u8>, fl: u8, fr: u8, rl: u8, rr: u8) -> bool {
    &&& p.len() == 8
    &&& field_val(p, 0, 2) == fl as nat % 4
    &&& field_val(p, 2, 2) == fr as nat % 4
    &&& field_val(p, 4, 2) == rl as nat % 4
    &&& field_val(p, 6, 2) == rr as nat % 4
    &&& field_val(p, 8, 56) == 0
}

/// The gear payload of the ABS run-2 message: one 2-bit code at bit 2.
pub open spec fn abs_run2_payload(p: Seq<u8>, gear: VehicleGear) -> bool {
    &&& p.len() == 8
    &&& field_val(p, 0, 2) == 0
    &&& field_val(p, 2, 2) == vehicle_gear_code(gear) as nat
    &&& field_val(p, 4, 60) == 0
}

/// The acceleration / yaw-rate payload of the ESC run-1 message. The three
/// validity bits at 48 to 50 overwrite part of the yaw-rate field written at
/// bit 40, so only the top byte and the low five bits of the yaw raw value
/// survive on the wire.
pub open spec fn esc_run1_payload(
    p: Seq<u8>,
    lat: int,
    lon: int,
    yaw: int,
    yaw_valid: bool,
    lon_valid: bool,
    lat_valid: bool,
) -> bool {
    let lat_t = tc16(clamp_spec(lat, -0x8000, 0x7FFF));
    let lon_t = tc16(clamp_spec(lon, -0x8000, 0x7FFF));
    let yaw_t = tc16(clamp_spec(yaw, -0x8000, 0x7FFF));
    &&& p.len() == 8
    &&& field_val(p, 8, 16) == lat_t
    &&& field_val(p, 24, 16) == lon_t
    &&& field_val(p, 40, 8) == yaw_t / 256
    &&& bit_at(p, 48) == yaw_valid
    &&& bit_at(p, 49) == lon_valid
    &&& bit_at(p, 50) == lat_valid
    &&& field_val(p, 51, 5) == yaw_t % 32
    &&& field_val(p, 0, 8) == 0
    &&& field_val(p, 56, 8) == 0
}

/// The steering payload of the EPS run message. The angular-speed byte at
/// bit 16 overwrites the low byte of the angle field written at bit 8, so
/// only the top byte of the clamped angle raw value survives on the wire.
pub open spec fn eps_run_payload(p: Seq<u8>, angle: int, spd: int, cal_ok: bool, fault: bool) -> bool {
    let a_t = tc16(clamp_spec(angle, -7800, 7799));
    let s_c = clamp_spec(spd, 0, 255);
    &&& p.len() == 8
    &&& field_val(p, 8, 8) == a_t / 256
    &&& field_val(p, 16, 8) == s_c
    &&& bit_at(p, 30) == cal_ok
    &&& bit_at(p, 31) == fault
    &&& field_val(p, 0, 8) == 0
    &&& field_val(p, 24, 6) == 0
    &&& field_val(p, 32, 32) == 0
}

/// The wheel-speed payload of the ABS fault-info message: 13-bit raw speeds,
/// saturated to 16 bits and truncated to the field width. The signal table
/// places the rear-right field at bit 56, where only 8 of its 13 bits exist
/// inside an 8-byte frame; written most-significant-bit first, the payload
/// carries the top 8 bits of that raw value and the low 5 bits are lost.
pub open spec fn abs_fault_payload(p: Seq<u8>, fl: int, fr: int, rl: int, rr: int) -> bool {
    let fl_r = clamp_spec(fl, 0, 0xFFFF) as nat % 8192;
    let fr_r = clamp_spec(fr, 0, 0xFFFF) as nat % 8192;
    let rl_r = clamp_spec(rl, 0, 0xFFFF) as nat % 8192;
    let rr_r = clamp_spec(rr, 0, 0xFFFF) as nat % 8192;
    &&& p.len() == 8
    &&& field_val(p, 11, 13) == fl_r
    &&& field_val(p, 27, 13) == fr_r
    &&& field_val(p, 43, 13) == rl_r
    &&& field_val(p, 56, 8) == rr_r / 32
    &&& field_val(p, 0, 11) == 0
    &&& field_val(p, 24, 3) == 0
    &&& field_val(p, 40, 3) == 0
}

/// The vehicle-speed payload of the ABS run-1 message. The inverted validity
/// bit at 16 (0 = valid, 1 = invalid) overwrites one bit inside the 13-bit
/// speed field written at bit 8, so the top 8 and the low 4 bits of the raw
/// speed survive on the wire.
pub open spec fn abs_run1_payload(p: Seq<u8>, speed: int, valid: bool) -> bool {
    let r = clamp_spec(speed, 0, 0xFFFF) as nat % 8192;
    &&& p.len() == 8
    &&& field_val(p, 8, 8) == r / 32
    &&& bit_at(p, 16) == !valid
    &&& field_val(p, 17, 4) == r % 16
    &&& field_val(p, 0, 8) == 0
    &&& field_val(p, 21, 43) == 0
}

/// A fresh all-zero 8-byte payload.
fn new_payload() -> (d: Vec<u8>)
    ensures
        d@.len() == 8,
        forall|j: int| 0 <= j < 64 ==> !bit_at(d@, j),
{
    let mut d: Vec<u8> = Vec::new();
    let mut i: usize = 0;
    while i < 8
        invariant
            i <= 8,
            d@.len() == i,
            forall|b: int| 0 <= b < i ==> d@[b] == 0u8,
        decreases 8 - i,
    {
        d.push(0u8);
        i = i + 1;
    }
    proof {
        lemma_zero_byte_has_no_bits();
        assert forall|j: int| 0 <= j < 64 implies !bit_at(d@, j) by {
            assert(0 <= j / 8 < 8);
            assert(d@[j / 8] == 0u8);
        }
    }
    d
}

/// No bit of a zero byte is set.
proof fn lemma_zero_byte_has_no_bits()
    by (bit_vector)
    ensures
        forall|p: u8| !(#[trigger] ((0u8 >> p) & 1) == 1),
{
}

/// `x` saturated to `[lo, hi]`, as the protocol's clamped signals require.
fn clamp_i64(x: i64, lo: i64, hi: i64) -> (r: i64)
    requires
        lo <= hi,
    ensures
        r as int == clamp_spec(x as int, lo as int, hi as int),
{
    if x < lo {
        lo
    } else if x > hi {
        hi
    } else {
        x
    }
}

/// The 16-bit two's-complement pattern of an in-range signed value.
fn to_u16_tc(x: i64) -> (r: u16)
    requires
        -0x8000 <= x <= 0x7FFF,
    ensures
        r as nat == tc16(x as int),
{
    if x >= 0 {
        x as u16
    } else {
        (x + 0x10000) as u16
    }
}

/// A field left untouched by a write to a disjoint bit range keeps its value.
proof fn lemma_field_preserved(pre: Seq<u8>, post: Seq<u8>, ws: int, wl: nat, s: int, l: nat)
    requires
        post.len() == pre.len(),
        forall|j: int|
            0 <= j < 8 * post.len() && !(ws <= j < ws + wl) ==> bit_at(post, j) == bit_at(pre, j),
        0 <= s,
        s + l <= 8 * pre.len(),
        s + l <= ws || ws + wl <= s,
    ensures
        field_val(post, s, l) == field_val(pre, s, l),
{
    assert forall|k: int| 0 <= k < l implies #[trigger] bit_at(post, s + k) == bit_at(pre, s + k) by {
        assert(!(ws <= s + k < ws + wl));
    }
    lemma_field_val_unchanged(post, pre, s, l);
}

/// A field whose bits are all clear reads as zero.
proof fn lemma_field_val_zero(data: Seq<u8>, start: int, len: nat)
    requires
        forall|k: int| start <= k < start + len ==> !(#[trigger] bit_at(data, k)),
    ensures
        field_val(data, start, len) == 0,
    decreases len,
{
    if len > 0 {
        lemma_field_val_zero(data, start, (len - 1) as nat);
    }
}

/// Encodes the ESC run-2 message (identifier 0x142): the four wheel-speed
/// validity codes, two bits each, in the order front-left, front-right,
/// rear-left, rear-right; codes are taken modulo 4 as on the wire.
pub fn encode_esc_sts_run2(fl_valid: u8, fr_valid: u8, rl_valid: u8, rr_valid: u8) -> (f: Frame)
    ensures
        f.id == ID_ESC_RUN2,
        esc_run2_payload(f.payload@, fl_valid, fr_valid, rl_valid, rr_valid),
{
    proof {
        lemma2_to64();
    }
    let mut d = new_payload();
    let ghost d0 = d@;
    set_bits_m(&mut d, 0, 2, (fl_valid & 0x3) as u64);
    let ghost d1 = d@;
    set_bits_m(&mut d, 2, 2, (fr_valid & 0x3) as u64);
    let ghost d2 = d@;
    set_bits_m(&mut d, 4, 2, (rl_valid & 0x3) as u64);
    let ghost d3 = d@;
    set_bits_m(&mut d, 6, 2, (rr_valid & 0x3) as u64);
    proof {
        lemma_two_bit_mask_is_mod(fl_valid);
        lemma_two_bit_mask_is_mod(fr_valid);
        lemma_two_bit_mask_is_mod(rl_valid);
        lemma_two_bit_mask_is_mod(rr_valid);
        lemma_field_preserved(d1, d2, 2, 2, 0, 2);
        lemma_field_preserved(d2, d3, 4, 2, 0, 2);
        lemma_field_preserved(d3, d@, 6, 2, 0, 2);
        lemma_field_preserved(d2, d3, 4, 2, 2, 2);
        lemma_field_preserved(d3, d@, 6, 2, 2, 2);
        lemma_field_preserved(d3, d@, 6, 2, 4, 2);
        assert forall|k: int| 8 <= k < 64 implies !(#[trigger] bit_at(d@, k)) by {
            assert(bit_at(d@, k) == bit_at(d3, k));
            assert(bit_at(d3, k) == bit_at(d2, k));
            assert(bit_at(d2, k) == bit_at(d1, k));
            assert(bit_at(d1, k) == bit_at(d0, k));
        }
        lemma_field_val_zero(d@, 8, 56);
    }
    Frame { id: ID_ESC_RUN2, payload: d }
}

/// The low two bits of a byte are its value modulo 4.
proof fn lemma_two_bit_mask_is_mod(x: u8)
    by (bit_vector)
    ensures
        (x & 0x3) == x % 4,
        (x & 0x3) < 4,
{
}

/// Encodes the ABS run-2 message (identifier 0x210): the selected gear as a
/// 2-bit code at bit 2; every other bit of the payload is zero.
pub fn encode_abs_sts_run2(gear: VehicleGear) -> (f: Frame)
    ensures
        f.id == ID_ABS_RUN2,
        abs_run2_payload(f.payload@, gear),
{
    proof {
        lemma2_to64();
    }
    let mut d = new_payload();
    let ghost d0 = d@;
    let code = gear.code();
    set_bits_m(&mut d, 2, 2, code as u64);
    proof {
        lemma_small_mod(code as nat, pow2(2));
        assert forall|k: int| 0 <= k < 64 && !(2 <= k < 4) implies !(#[trigger] bit_at(d@, k)) by {
            assert(bit_at(d@, k) == bit_at(d0, k));
        }
        lemma_field_val_zero(d@, 0, 2);
        lemma_field_val_zero(d@, 4, 60);
    }
    Frame { id: ID_ABS_RUN2, payload: d }
}

/// A one-bit field value names its bit.
proof fn lemma_one_bit_value(v: u64)
    by (bit_vector)
    ensures
        ((v >> 0u64) & 1 == 1) == (v & 1 == 1),
        (v <= 1) ==> ((v & 1 == 1) == (v == 1)),
{
}

/// Encodes the ESC run-1 message (identifier 0x141): lateral and
/// longitudinal acceleration and yaw rate as 16-bit signed raw values
/// (saturated to the 16-bit range), plus the three validity bits.
pub fn encode_esc_sts_run1(
    lat_acc_raw: i64,
    lon_acc_raw: i64,
    yaw_rate_raw: i64,
    yaw_valid: bool,
    lon_valid: bool,
    lat_valid: bool,
) -> (f: Frame)
    ensures
        f.id == ID_ESC_RUN1,
        esc_run1_payload(
            f.payload@,
            lat_acc_raw as int,
            lon_acc_raw as int,
            yaw_rate_raw as int,
            yaw_valid,
            lon_valid,
            lat_valid,
        ),
{
    proof {
        lemma2_to64();
        lemma2_to64_rest();
    }
    let mut d = new_payload();
    let ghost d0 = d@;
    let lat_u = to_u16_tc(clamp_i64(lat_acc_raw, -0x8000, 0x7FFF));
    set_bits_m(&mut d, 8, 16, lat_u as u64);
    let ghost d1 = d@;
    proof {
        lemma_small_mod(lat_u as nat, pow2(16));
    }
    let lon_u = to_u16_tc(clamp_i64(lon_acc_raw, -0x8000, 0x7FFF));
    set_bits_m(&mut d, 24, 16, lon_u as u64);
    let ghost d2 = d@;
    proof {
        lemma_small_mod(lon_u as nat, pow2(16));
    }
    let yaw_u = to_u16_tc(clamp_i64(yaw_rate_raw, -0x8000, 0x7FFF));
    set_bits_m(&mut d, 40, 16, yaw_u as u64);
    let ghost d3 = d@;
    proof {
        lemma_small_mod(yaw_u as nat, pow2(16));
        assert(field_val(d3, 40, 16) == yaw_u as nat);
        lemma_field_val_split(d3, 40, 8, 8);
        lemma_field_val_bound(d3, 40, 8);
        lemma_field_val_bound(d3, 48, 8);
        lemma_fundamental_div_mod_converse(
            yaw_u as int,
            256,
            field_val(d3, 40, 8) as int,
            field_val(d3, 48, 8) as int,
        );
        lemma_field_val_split(d3, 48, 3, 5);
        lemma_field_val_bound(d3, 51, 5);
        lemma_fundamental_div_mod_converse(
            (yaw_u as nat % 256) as int,
            32,
            field_val(d3, 48, 3) as int,
            field_val(d3, 51, 5) as int,
        );
        lemma_mod_mod(yaw_u as int, 32, 8);
        assert(field_val(d3, 40, 8) == yaw_u as nat / 256);
        assert(field_val(d3, 51, 5) == yaw_u as nat % 32);
    }
    let yv: u64 = if yaw_valid {
        1
    } else {
        0
    };
    set_bits_m(&mut d, 48, 1, yv);
    let ghost d4 = d@;
    let lov: u64 = if lon_valid {
        1
    } else {
        0
    };
    set_bits_m(&mut d, 49, 1, lov);
    let ghost d5 = d@;
    let lav: u64 = if lat_valid {
        1
    } else {
        0
    };
    set_bits_m(&mut d, 50, 1, lav);
    proof {
        // the acceleration fields are untouched by the later writes
        lemma_field_preserved(d1, d2, 24, 16, 8, 16);
        lemma_field_preserved(d2, d3, 40, 16, 8, 16);
        lemma_field_preserved(d3, d4, 48, 1, 8, 16);
        lemma_field_preserved(d4, d5, 49, 1, 8, 16);
        lemma_field_preserved(d5, d@, 50, 1, 8, 16);
        lemma_field_preserved(d2, d3, 40, 16, 24, 16);
        lemma_field_preserved(d3, d4, 48, 1, 24, 16);
        lemma_field_preserved(d4, d5, 49, 1, 24, 16);
        lemma_field_preserved(d5, d@, 50, 1, 24, 16);
        // the surviving parts of the yaw field
        lemma_field_preserved(d3, d4, 48, 1, 40, 8);
        lemma_field_preserved(d4, d5, 49, 1, 40, 8);
        lemma_field_preserved(d5, d@, 50, 1, 40, 8);
        lemma_field_preserved(d3, d4, 48, 1, 51, 5);
        lemma_field_preserved(d4, d5, 49, 1, 51, 5);
        lemma_field_preserved(d5, d@, 50, 1, 51, 5);
        // the three validity bits
        lemma_one_bit_value(yv);
        lemma_one_bit_value(lov);
        lemma_one_bit_value(lav);
        assert(bit_at(d4, 48) == crate::bitpack::value_bit(yv, 1, 0));
        assert(bit_at(d4, 48) == bit_at(d5, 48) && bit_at(d5, 48) == bit_at(d@, 48));
        assert(bit_at(d5, 49) == crate::bitpack::value_bit(lov, 1, 0));
        assert(bit_at(d5, 49) == bit_at(d@, 49));
        assert(bit_at(d@, 50) == crate::bitpack::value_bit(lav, 1, 0));
        // everything before and after the signal area stays zero
        assert forall|k: int| 0 <= k < 64 && (k < 8 || 56 <= k) implies !(#[trigger] bit_at(
            d@,
            k,
        )) by {
            assert(bit_at(d@, k) == bit_at(d5, k));
            assert(bit_at(d5, k) == bit_at(d4, k));
            assert(bit_at(d4, k) == bit_at(d3, k));
            assert(bit_at(d3, k) == bit_at(d2, k));
            assert(bit_at(d2, k) == bit_at(d1, k));
            assert(bit_at(d1, k) == bit_at(d0, k));
        }
        lemma_field_val_zero(d@, 0, 8);
        lemma_field_val_zero(d@, 56, 8);
    }
    Frame { id: ID_ESC_RUN1, payload: d }
}

/// Encodes the EPS run message (identifier 0x221): steering angle raw value
/// clamped to the documented bounds (±780 degrees at 0.1 degree per count),
/// angular speed raw value clamped to one byte, and the two status bits.
pub fn encode_eps_sts_run(angle_raw: i64, angle_spd_raw: i64, cal_ok: bool, fault: bool) -> (f:
    Frame)
    ensures
        f.id == ID_EPS_RUN,
        eps_run_payload(f.payload@, angle_raw as int, angle_spd_raw as int, cal_ok, fault),
{
    proof {
        lemma2_to64();
        lemma2_to64_rest();
    }
    let mut d = new_payload();
    let ghost d0 = d@;
    let angle_u = to_u16_tc(clamp_i64(angle_raw, -7800, 7799));
    set_bits_m(&mut d, 8, 16, angle_u as u64);
    let ghost d1 = d@;
    proof {
        lemma_small_mod(angle_u as nat, pow2(16));
        lemma_field_val_split(d1, 8, 8, 8);
        lemma_field_val_bound(d1, 8, 8);
        lemma_field_val_bound(d1, 16, 8);
        lemma_fundamental_div_mod_converse(
            angle_u as int,
            256,
            field_val(d1, 8, 8) as int,
            field_val(d1, 16, 8) as int,
        );
        assert(field_val(d1, 8, 8) == angle_u as nat / 256);
    }
    let spd_u = clamp_i64(angle_spd_raw, 0, 255) as u64;
    set_bits_m(&mut d, 16, 8, spd_u);
    let ghost d2 = d@;
    proof {
        lemma_small_mod(spd_u as nat, pow2(8));
    }
    let cv: u64 = if cal_ok {
        1
    } else {
        0
    };
    set_bits_m(&mut d, 30, 1, cv);
    let ghost d3 = d@;
    let fv: u64 = if fault {
        1
    } else {
        0
    };
    set_bits_m(&mut d, 31, 1, fv);
    proof {
        lemma_field_preserved(d1, d2, 16, 8, 8, 8);
        lemma_field_preserved(d2, d3, 30, 1, 8, 8);
        lemma_field_preserved(d3, d@, 31, 1, 8, 8);
        lemma_field_preserved(d2, d3, 30, 1, 16, 8);
        lemma_field_preserved(d3, d@, 31, 1, 16, 8);
        lemma_one_bit_value(cv);
        lemma_one_bit_value(fv);
        assert(bit_at(d3, 30) == crate::bitpack::value_bit(cv, 1, 0));
        assert(bit_at(d3, 30) == bit_at(d@, 30));
        assert(bit_at(d@, 31) == crate::bitpack::value_bit(fv, 1, 0));
        assert forall|k: int| 0 <= k < 64 && (k < 8 || (24 <= k < 30) || 32 <= k) implies !(
        #[trigger] bit_at(d@, k)) by {
            assert(bit_at(d@, k) == bit_at(d3, k));
            assert(bit_at(d3, k) == bit_at(d2, k));
            assert(bit_at(d2, k) == bit_at(d1, k));
            assert(bit_at(d1, k) == bit_at(d0, k));
        }
        lemma_field_val_zero(d@, 0, 8);
        lemma_field_val_zero(d@, 24, 6);
        lemma_field_val_zero(d@, 32, 32);
    }
    Frame { id: ID_EPS_RUN, payload: d }
}

/// The masked-and-shifted top byte of a 13-bit raw value.
proof fn lemma_top_byte_of_13(v: u64)
    by (bit_vector)
    ensures
        (v & 0x1FFF) >> 5u64 == (v % 8192) / 32,
        (v & 0x1FFF) >> 5u64 < 256,
{
}

/// Encodes the ABS fault-info message (identifier 0x310): the four wheel
/// speeds as 13-bit raw values (saturated to 16 bits, then truncated to the
/// field width). See `abs_fault_payload` for the rear-right field, whose
/// table position leaves room for only its top 8 bits.
pub fn encode_abs_fault_info(fl_raw: i64, fr_raw: i64, rl_raw: i64, rr_raw: i64) -> (f: Frame)
    ensures
        f.id == ID_ABS_FAULT,
        abs_fault_payload(f.payload@, fl_raw as int, fr_raw as int, rl_raw as int, rr_raw as int),
{
    proof {
        lemma2_to64();
        lemma2_to64_rest();
    }
    let mut d = new_payload();
    let ghost d0 = d@;
    let fl_c = clamp_i64(fl_raw, 0, 0xFFFF) as u64;
    set_bits_m(&mut d, 11, 13, fl_c);
    let ghost d1 = d@;
    let fr_c = clamp_i64(fr_raw, 0, 0xFFFF) as u64;
    set_bits_m(&mut d, 27, 13, fr_c);
    let ghost d2 = d@;
    let rl_c = clamp_i64(rl_raw, 0, 0xFFFF) as u64;
    set_bits_m(&mut d, 43, 13, rl_c);
    let ghost d3 = d@;
    let rr_c = clamp_i64(rr_raw, 0, 0xFFFF) as u64;
    let rr_top = (rr_c & 0x1FFF) >> 5u64;
    set_bits_m(&mut d, 56, 8, rr_top);
    proof {
        lemma_top_byte_of_13(rr_c);
        lemma_small_mod(rr_top as nat, pow2(8));
        lemma_field_preserved(d1, d2, 27, 13, 11, 13);
        lemma_field_preserved(d2, d3, 43, 13, 11, 13);
        lemma_field_preserved(d3, d@, 56, 8, 11, 13);
        lemma_field_preserved(d2, d3, 43, 13, 27, 13);
        lemma_field_preserved(d3, d@, 56, 8, 27, 13);
        lemma_field_preserved(d3, d@, 56, 8, 43, 13);
        assert forall|k: int|
            0 <= k < 64 && (k < 11 || (24 <= k < 27) || (40 <= k < 43)) implies !(#[trigger] bit_at(
            d@,
            k,
        )) by {
            assert(bit_at(d@, k) == bit_at(d3, k));
            assert(bit_at(d3, k) == bit_at(d2, k));
            assert(bit_at(d2, k) == bit_at(d1, k));
            assert(bit_at(d1, k) == bit_at(d0, k));
        }
        lemma_field_val_zero(d@, 0, 11);
        lemma_field_val_zero(d@, 24, 3);
        lemma_field_val_zero(d@, 40, 3);
    }
    Frame { id: ID_ABS_FAULT, payload: d }
}

/// Encodes the ABS run-1 message (identifier 0x330): the vehicle speed as a
/// 13-bit raw value (saturated to 16 bits, truncated to the field width) and
/// the inverted validity bit (0 on the wire means valid).
pub fn encode_abs_sts_run1(veh_speed_raw: i64, valid: bool) -> (f: Frame)
    ensures
        f.id == ID_ABS_RUN1,
        abs_run1_payload(f.payload@, veh_speed_raw as int, valid),
{
    proof {
        lemma2_to64();
        lemma2_to64_rest();
    }
    let mut d = new_payload();
    let ghost d0 = d@;
    let raw = clamp_i64(veh_speed_raw, 0, 0xFFFF) as u64;
    set_bits_m(&mut d, 8, 13, raw);
    let ghost d1 = d@;
    proof {
        let r = raw as nat % 8192;
        assert(field_val(d1, 8, 13) == r);
        lemma_field_val_split(d1, 8, 8, 5);
        lemma_field_val_bound(d1, 8, 8);
        lemma_field_val_bound(d1, 16, 5);
        lemma_fundamental_div_mod_converse(
            r as int,
            32,
            field_val(d1, 8, 8) as int,
            field_val(d1, 16, 5) as int,
        );
        lemma_field_val_split(d1, 16, 1, 4);
        lemma_field_val_bound(d1, 17, 4);
        lemma_fundamental_div_mod_converse(
            (r % 32) as int,
            16,
            field_val(d1, 16, 1) as int,
            field_val(d1, 17, 4) as int,
        );
        lemma_mod_mod(r as int, 16, 2);
        assert(field_val(d1, 8, 8) == r / 32);
        assert(field_val(d1, 17, 4) == r % 16);
    }
    let inv: u64 = if valid {
        0
    } else {
        1
    };
    set_bits_m(&mut d, 16, 1, inv);
    proof {
        lemma_field_preserved(d1, d@, 16, 1, 8, 8);
        lemma_field_preserved(d1, d@, 16, 1, 17, 4);
        lemma_one_bit_value(inv);
        assert(bit_at(d@, 16) == crate::bitpack::value_bit(inv, 1, 0));
        assert forall|k: int| 0 <= k < 64 && (k < 8 || 21 <= k) implies !(#[trigger] bit_at(
            d@,
            k,
        )) by {
            assert(bit_at(d@, k) == bit_at(d1, k));
            assert(bit_at(d1, k) == bit_at(d0, k));
        }
        lemma_field_val_zero(d@, 0, 8);
        lemma_field_val_zero(d@, 21, 43);
    }
    Frame { id: ID_ABS_RUN1, payload: d }
}

/// Encodes the minimal vehicle-state set the radar needs, as three frames in
/// transmission order: vehicle speed (marked valid), a neutral EPS message
/// (zero angle and speed, calibrated, no fault), and the selected gear.
pub fn encode_vehicle_state(veh_speed_raw: i64, gear: VehicleGear) -> (frames: Vec<Frame>)
    ensures
        frames@.len() == 3,
        frames@[0].id == ID_ABS_RUN1,
        abs_run1_payload(frames@[0].payload@, veh_speed_raw as int, true),
        frames@[1].id == ID_EPS_RUN,
        eps_run_payload(frames@[1].payload@, 0, 0, true, false),
        frames@[2].id == ID_ABS_RUN2,
        abs_run2_payload(frames@[2].payload@, gear),
{
    let mut frames: Vec<Frame> = Vec::new();
    frames.push(encode_abs_sts_run1(veh_speed_raw, true));
    frames.push(encode_eps_sts_run(0, 0, true, false));
    frames.push(encode_abs_sts_run2(gear));
    frames
}

/// What `parse_frs_status` reads out of a full status payload.
pub open spec fn frs_status_decoded(d: Seq<u8>, st: FrsStatus) -> bool {
    &&& st.latency_raw as nat == field_val(d, 2, 6)
    &&& st.timestamp_s as nat == field_val(d, 18, 16)
    &&& st.host_speed_raw as int == field_val(d, 38, 12) - 800
    &&& st.blocked == bit_at(d, 40)
    &&& st.fail_flag == bit_at(d, 41)
    &&& st.meas_enabled == bit_at(d, 42)
    &&& st.host_yaw_raw as int == sign_extended(field_val(d, 43, 11), 11)
    &&& st.alive_counter as nat == field_val(d, 48, 4)
    &&& st.misalign_status == calibration_status_of(field_val(d, 52, 3) as u8)
    &&& st.hw_error == bit_at(d, 55)
}

/// What `parse_object_part1` reads out of a full part-1 payload.
pub open spec fn obj_part1_decoded(d: Seq<u8>, o: ObjPart1) -> bool {
    &&& o.obj_id as nat == field_val(d, 0, 8)
    &&& o.x_pos_stdev_raw as nat == field_val(d, 8, 7)
    &&& o.update_flag == bit_at(d, 15)
    &&& o.y_pos_stdev_raw as nat == field_val(d, 16, 7)
    &&& o.valid_flag == bit_at(d, 23)
    &&& o.obstacle_prob_raw as nat == field_val(d, 24, 5)
    &&& o.motion_pattern == motion_pattern_of(field_val(d, 29, 3) as u8)
    &&& o.x_acc_rel_raw as int == sign_extended(field_val(d, 33, 7), 7)
    &&& o.x_vel_rel_stdev_raw as nat == field_val(d, 42, 7)
    &&& o.alive_counter as nat == field_val(d, 48, 4)
    &&& o.exst_prob_raw as nat == field_val(d, 52, 6)
    &&& o.checksum as nat == field_val(d, 56, 8)
}

/// What `parse_object_part2` reads out of a full part-2 payload.
pub open spec fn obj_part2_decoded(d: Seq<u8>, o: ObjPart2) -> bool {
    &&& o.x_vel_rel_raw as int == sign_extended(field_val(d, 13, 11), 11)
    &&& o.y_pos_raw as int == sign_extended(field_val(d, 16, 13), 13)
    &&& o.obj_type == object_type_of(field_val(d, 32, 2) as u8)
    &&& o.x_pos_raw as nat == field_val(d, 34, 14)
    &&& o.alive_counter as nat == field_val(d, 48, 4)
    &&& o.meas_flag_extrapolated == bit_at(d, 52)
    &&& o.y_vel_rel_raw as int == sign_extended(field_val(d, 53, 11), 11)
    &&& o.checksum as nat == field_val(d, 56, 8)
}

/// Decodes the radar status message. A payload shorter than 8 bytes is
/// rejected; a full payload always decodes, with a reserved misalignment
/// code surfaced in the record as the error carrying that code.
pub fn parse_frs_status(d: &[u8]) -> (r: Result<FrsStatus, DecodeError>)
    ensures
        d@.len() < 8 ==> r == Err::<FrsStatus, DecodeError>(DecodeError::ShortPayload),
        d@.len() >= 8 ==> (r matches Ok(st) && frs_status_decoded(d@, st)),
{
    if d.len() < 8 {
        return Err(DecodeError::ShortPayload);
    }
    proof {
        lemma2_to64();
        lemma_sign_extended_bounds(field_val(d@, 43, 11), 11);
    }
    let latency_raw = get_bits_m(d, 2, 6) as u8;
    let timestamp_s = get_bits_m(d, 18, 16) as u16;
    let host_speed_raw = get_bits_m(d, 38, 12) as i16 - 800;
    let blocked = get_bits_m(d, 40, 1) != 0;
    let fail_flag = get_bits_m(d, 41, 1) != 0;
    let meas_enabled = get_bits_m(d, 42, 1) != 0;
    let host_yaw_raw = sign_extend(get_bits_m(d, 43, 11), 11) as i16;
    let alive_counter = get_bits_m(d, 48, 4) as u8;
    let mis_code = get_bits_m(d, 52, 3) as u8;
    let hw_error = get_bits_m(d, 55, 1) != 0;
    let misalign_status = CalibrationStatus::decode(mis_code);
    Ok(
        FrsStatus {
            latency_raw,
            timestamp_s,
            host_speed_raw,
            blocked,
            fail_flag,
            meas_enabled,
            host_yaw_raw,
            alive_counter,
            misalign_status,
            hw_error,
        },
    )
}

/// Decodes an object part-1 message (tracking quality and classification).
/// A payload shorter than 8 bytes is rejected; a full payload always
/// decodes, the motion-pattern mapping being total.
pub fn parse_object_part1(d: &[u8]) -> (r: Result<ObjPart1, DecodeError>)
    ensures
        d@.len() < 8 ==> r == Err::<ObjPart1, DecodeError>(DecodeError::ShortPayload),
        d@.len() >= 8 ==> (r matches Ok(o) && obj_part1_decoded(d@, o)),
{
    if d.len() < 8 {
        return Err(DecodeError::ShortPayload);
    }
    proof {
        lemma2_to64();
        lemma_sign_extended_bounds(field_val(d@, 33, 7), 7);
    }
    let obj_id = get_bits_m(d, 0, 8) as u8;
    let x_pos_stdev_raw = get_bits_m(d, 8, 7) as u8;
    let update_flag = get_bits_m(d, 15, 1) != 0;
    let y_pos_stdev_raw = get_bits_m(d, 16, 7) as u8;
    let valid_flag = get_bits_m(d, 23, 1) != 0;
    let obstacle_prob_raw = get_bits_m(d, 24, 5) as u8;
    let motion_pattern = MotionPattern::decode(get_bits_m(d, 29, 3) as u8);
    let x_acc_rel_raw = sign_extend(get_bits_m(d, 33, 7), 7) as i8;
    let x_vel_rel_stdev_raw = get_bits_m(d, 42, 7) as u8;
    let alive_counter = get_bits_m(d, 48, 4) as u8;
    let exst_prob_raw = get_bits_m(d, 52, 6) as u8;
    let checksum = get_bits_m(d, 56, 8) as u8;
    Ok(
        ObjPart1 {
            obj_id,
            x_pos_stdev_raw,
            update_flag,
            y_pos_stdev_raw,
            valid_flag,
            obstacle_prob_raw,
            motion_pattern,
            x_acc_rel_raw,
            x_vel_rel_stdev_raw,
            alive_counter,
            exst_prob_raw,
            checksum,
        },
    )
}

/// Decodes an object part-2 message (kinematics). A payload shorter than
/// 8 bytes is rejected; a full payload always decodes, every 2-bit object
/// type being defined.
pub fn parse_object_part2(d: &[u8]) -> (r: Result<ObjPart2, DecodeError>)
    ensures
        d@.len() < 8 ==> r == Err::<ObjPart2, DecodeError>(DecodeError::ShortPayload),
        d@.len() >= 8 ==> (r matches Ok(o) && obj_part2_decoded(d@, o)),
{
    if d.len() < 8 {
        return Err(DecodeError::ShortPayload);
    }
    proof {
        lemma2_to64();
        lemma_sign_extended_bounds(field_val(d@, 13, 11), 11);
        lemma_sign_extended_bounds(field_val(d@, 16, 13), 13);
        lemma_sign_extended_bounds(field_val(d@, 53, 11), 11);
    }
    let x_vel_rel_raw = sign_extend(get_bits_m(d, 13, 11), 11) as i16;
    let y_pos_raw = sign_extend(get_bits_m(d, 16, 13), 13) as i16;
    let obj_type = ObjectType::decode(get_bits_m(d, 32, 2) as u8);
    let x_pos_raw = get_bits_m(d, 34, 14) as u16;
    let alive_counter = get_bits_m(d, 48, 4) as u8;
    let meas_flag_extrapolated = get_bits_m(d, 52, 1) != 0;
    let y_vel_rel_raw = sign_extend(get_bits_m(d, 53, 11), 11) as i16;
    let checksum = get_bits_m(d, 56, 8) as u8;
    Ok(
        ObjPart2 {
            x_vel_rel_raw,
            y_pos_raw,
            obj_type,
            x_pos_raw,
            alive_counter,
            meas_flag_extrapolated,
            y_vel_rel_raw,
            checksum,
        },
    )
}

/// A received frame understood by the dispatcher.
#[derive(Debug, Clone)]
pub enum RadarMessage {
    /// The radar status message.
    Status(FrsStatus),
    /// An object part-1 message with its object index (0 to 15).
    ObjectPart1(u8, ObjPart1),
    /// An object part-2 message with its object index (0 to 15).
    ObjectPart2(u8, ObjPart2),
}

/// Whether the dispatcher understands this identifier: the status message,
/// or one of the two 16-wide per-object identifier ranges.
pub open spec fn recognized_id(id: u32) -> bool {
    ||| id == ID_FRS_STATUS
    ||| ID_FRS_OBJ_PART1_BASE <= id <= ID_FRS_OBJ_PART1_BASE + 0x0F
    ||| ID_FRS_OBJ_PART2_BASE <= id <= ID_FRS_OBJ_PART2_BASE + 0x0F
}

/// Dispatches one received frame to its decoder. Identifiers this driver
/// does not interpret are ignored (the bus is shared), not an error; a
/// recognized identifier with a short payload is a decode error; per-object
/// identifiers hand the object index (identifier minus range base) through.
pub fn dispatch_frame(id: u32, d: &[u8]) -> (r: Result<Option<RadarMessage>, DecodeError>)
    ensures
        !recognized_id(id) ==> r == Ok::<Option<RadarMessage>, DecodeError>(None),
        recognized_id(id) && d@.len() < 8 ==> r == Err::<Option<RadarMessage>, DecodeError>(
            DecodeError::ShortPayload,
        ),
        d@.len() >= 8 && id == ID_FRS_STATUS ==> (r matches Ok(Some(RadarMessage::Status(st)))
            && frs_status_decoded(d@, st)),
        d@.len() >= 8 && ID_FRS_OBJ_PART1_BASE <= id <= ID_FRS_OBJ_PART1_BASE + 0x0F ==> (
        r matches Ok(Some(RadarMessage::ObjectPart1(idx, o))) && idx == id - ID_FRS_OBJ_PART1_BASE
            && obj_part1_decoded(d@, o)),
        d@.len() >= 8 && ID_FRS_OBJ_PART2_BASE <= id <= ID_FRS_OBJ_PART2_BASE + 0x0F ==> (
        r matches Ok(Some(RadarMessage::ObjectPart2(idx, o))) && idx == id - ID_FRS_OBJ_PART2_BASE
            && obj_part2_decoded(d@, o)),
{
    if id == ID_FRS_STATUS {
        match parse_frs_status(d) {
            Ok(st) => Ok(Some(RadarMessage::Status(st))),
            Err(e) => Err(e),
        }
    } else if ID_FRS_OBJ_PART1_BASE <= id && id <= ID_FRS_OBJ_PART1_BASE + 0x0F {
        let idx = (id - ID_FRS_OBJ_PART1_BASE) as u8;
        match parse_object_part1(d) {
            Ok(o) => Ok(Some(RadarMessage::ObjectPart1(idx, o))),
            Err(e) => Err(e),
        }
    } else if ID_FRS_OBJ_PART2_BASE <= id && id <= ID_FRS_OBJ_PART2_BASE + 0x0F {
        let idx = (id - ID_FRS_OBJ_PART2_BASE) as u8;
        match parse_object_part2(d) {
            Ok(o) => Ok(Some(RadarMessage::ObjectPart2(idx, o))),
            Err(e) => Err(e),
        }
    } else {
        Ok(None)
    }
}

} // verus!
