use vstd::prelude::*;

use crate::selection::{f32_rank, f32_rank_exec};

verus! {

pub const SIGN_BIT: u64 = 0x8000_0000_0000_0000;
pub const EXP_MASK: u64 = 0x7FF0_0000_0000_0000;
pub const MANT_MASK: u64 = 0x000F_FFFF_FFFF_FFFF;
/// The quiet bit of a binary64 NaN.
pub const QUIET_BIT: u64 = 0x0008_0000_0000_0000;
pub const POS_INFINITY: u64 = 0x7FF0_0000_0000_0000;
pub const NEG_INFINITY: u64 = 0xFFF0_0000_0000_0000;
/// The default quiet NaN.
pub const QUIET_NAN: u64 = 0x7FF8_0000_0000_0000;
/// The largest finite binary64 value.
pub const F64_MAX: u64 = 0x7FEF_FFFF_FFFF_FFFF;

/// The reciprocal square root estimate table: `(base, dec)` for each of the
/// 32 segments.
pub open spec fn frsqrte_table() -> Seq<(u32, u32)> {
    seq![
        (0x3ffa000, 0x7a4), (0x3c29000, 0x700), (0x38aa000, 0x670), (0x3572000, 0x5f2),
        (0x3279000, 0x584), (0x2fb7000, 0x524), (0x2d26000, 0x4cc), (0x2ac0000, 0x47e),
        (0x2881000, 0x43a), (0x2665000, 0x3fa), (0x2468000, 0x3c2), (0x2287000, 0x38e),
        (0x20c1000, 0x35e), (0x1f12000, 0x332), (0x1d79000, 0x30a), (0x1bf4000, 0x2e6),
        (0x1a7e800, 0x568), (0x17cb800, 0x4f3), (0x1552800, 0x48d), (0x130c000, 0x435),
        (0x10f2000, 0x3e7), (0x0eff000, 0x3a2), (0x0d2e000, 0x365), (0x0b7c000, 0x32e),
        (0x09e5000, 0x2fc), (0x0867000, 0x2d0), (0x06ff000, 0x2a8), (0x05ab800, 0x283),
        (0x046a000, 0x261), (0x0339800, 0x243), (0x0218800, 0x226), (0x0105800, 0x20b),
    ]
}

/// The reciprocal estimate table: `(base, dec)` for each of the 32 segments.
pub open spec fn fres_table() -> Seq<(u32, u32)> {
    seq![
        (0x7ff800, 0x3e1), (0x783800, 0x3a7), (0x70ea00, 0x371), (0x6a0800, 0x340),
        (0x638800, 0x313), (0x5d6200, 0x2ea), (0x579000, 0x2c4), (0x520800, 0x2a0),
        (0x4cc800, 0x27f), (0x47ca00, 0x261), (0x430800, 0x245), (0x3e8000, 0x22a),
        (0x3a2c00, 0x212), (0x360800, 0x1fb), (0x321400, 0x1e5), (0x2e4a00, 0x1d1),
        (0x2aa800, 0x1be), (0x272c00, 0x1ac), (0x23d600, 0x19b), (0x209e00, 0x18b),
        (0x1d8800, 0x17c), (0x1a9000, 0x16e), (0x17ae00, 0x15b), (0x14f800, 0x15b),
        (0x124400, 0x143), (0x0fbe00, 0x143), (0x0d3800, 0x12d), (0x0ade00, 0x12d),
        (0x088400, 0x11a), (0x065000, 0x11a), (0x041c00, 0x108), (0x020c00, 0x106),
    ]
}

/// The console's reciprocal square root estimate, on binary64 bit patterns.
pub open spec fn frsqrte_spec(v: u64) -> u64 {
    let sign = v & SIGN_BIT;
    let exponent = v & EXP_MASK;
    let mantissa = v & MANT_MASK;
    if exponent == 0 && mantissa == 0 {
        if sign == 0 { POS_INFINITY } else { NEG_INFINITY }
    } else if exponent == EXP_MASK {
        if mantissa != 0 {
            v | QUIET_BIT
        } else if sign == 0 {
            0
        } else {
            QUIET_NAN
        }
    } else if sign != 0 {
        QUIET_NAN
    } else {
        let exponent_lsb = (exponent & 0x0010_0000_0000_0000) ^ 0x0010_0000_0000_0000;
        let new_exponent = 0x3FF0_0000_0000_0000u64.wrapping_sub(
            exponent.wrapping_sub(0x3FE0_0000_0000_0000u64) / 2,
        ) & EXP_MASK;
        let idx = (exponent_lsb | mantissa) >> 37u64;
        let entry = frsqrte_table()[(idx / 2048) as int];
        let frac = (entry.0 - entry.1 * (idx % 2048)) as u64;
        sign | new_exponent | (frac << 26u64)
    }
}

/// The console's reciprocal estimate, on binary64 bit patterns. Zero and
/// subnormal inputs give infinity of their sign; other tiny inputs give the
/// largest finite value whatever their sign.
pub open spec fn fres_spec(v: u64) -> u64 {
    let sign = v & SIGN_BIT;
    let exponent = v & EXP_MASK;
    let mantissa = v & MANT_MASK;
    if exponent == 0 {
        if sign == 0 { POS_INFINITY } else { NEG_INFINITY }
    } else if exponent < 0x37F0_0000_0000_0000 {
        F64_MAX
    } else if exponent >= 0x47D0_0000_0000_0000 {
        0
    } else {
        let new_exponent = (0x7FD0_0000_0000_0000 - exponent) as u64;
        let idx = mantissa >> 37u64;
        let entry = fres_table()[(idx / 1024) as int];
        let frac = (entry.0 - (entry.1 * (idx % 1024) + 1) / 2) as u64;
        sign | new_exponent | (frac << 29u64)
    }
}

fn frsqrte_entry(i: u64) -> (r: (u32, u32))
    requires
        i < 32,
    ensures
        r == frsqrte_table()[i as int],
        r.0 >= r.1 * 2047,
        r.0 < 0x400_0000,
{
    let table: [(u32, u32); 32] = [
        (0x3ffa000, 0x7a4), (0x3c29000, 0x700), (0x38aa000, 0x670), (0x3572000, 0x5f2),
        (0x3279000, 0x584), (0x2fb7000, 0x524), (0x2d26000, 0x4cc), (0x2ac0000, 0x47e),
        (0x2881000, 0x43a), (0x2665000, 0x3fa), (0x2468000, 0x3c2), (0x2287000, 0x38e),
        (0x20c1000, 0x35e), (0x1f12000, 0x332), (0x1d79000, 0x30a), (0x1bf4000, 0x2e6),
        (0x1a7e800, 0x568), (0x17cb800, 0x4f3), (0x1552800, 0x48d), (0x130c000, 0x435),
        (0x10f2000, 0x3e7), (0x0eff000, 0x3a2), (0x0d2e000, 0x365), (0x0b7c000, 0x32e),
        (0x09e5000, 0x2fc), (0x0867000, 0x2d0), (0x06ff000, 0x2a8), (0x05ab800, 0x283),
        (0x046a000, 0x261), (0x0339800, 0x243), (0x0218800, 0x226), (0x0105800, 0x20b),
    ];
    assert(table@ =~= frsqrte_table());
    table[i as usize]
}

fn fres_entry(i: u64) -> (r: (u32, u32))
    requires
        i < 32,
    ensures
        r == fres_table()[i as int],
        2 * r.0 >= r.1 * 1023 + 1,
        r.0 < 0x80_0000,
{
    let table: [(u32, u32); 32] = [
        (0x7ff800, 0x3e1), (0x783800, 0x3a7), (0x70ea00, 0x371), (0x6a0800, 0x340),
        (0x638800, 0x313), (0x5d6200, 0x2ea), (0x579000, 0x2c4), (0x520800, 0x2a0),
        (0x4cc800, 0x27f), (0x47ca00, 0x261), (0x430800, 0x245), (0x3e8000, 0x22a),
        (0x3a2c00, 0x212), (0x360800, 0x1fb), (0x321400, 0x1e5), (0x2e4a00, 0x1d1),
        (0x2aa800, 0x1be), (0x272c00, 0x1ac), (0x23d600, 0x19b), (0x209e00, 0x18b),
        (0x1d8800, 0x17c), (0x1a9000, 0x16e), (0x17ae00, 0x15b), (0x14f800, 0x15b),
        (0x124400, 0x143), (0x0fbe00, 0x143), (0x0d3800, 0x12d), (0x0ade00, 0x12d),
        (0x088400, 0x11a), (0x065000, 0x11a), (0x041c00, 0x108), (0x020c00, 0x106),
    ];
    assert(table@ =~= fres_table());
    table[i as usize]
}

/// A position: three binary32 components, each held as its bit pattern.
#[derive(Clone, Copy, Debug)]
pub struct Vector {
    pub x: u32,
    pub y: u32,
    pub z: u32,
}

impl Vector {
    pub fn new(x: u32, y: u32, z: u32) -> (v: Vector)
        ensures
            v.x == x && v.y == y && v.z == z,
    {
        Vector { x, y, z }
    }
}

impl Default for Vector {
    /// The origin: three positive zeros.
    fn default() -> (v: Vector)
        ensures
            v.x == 0 && v.y == 0 && v.z == 0,
    {
        Vector { x: 0, y: 0, z: 0 }
    }
}

/// The binary32 bit pattern of 0.025: squared distances below it count as
/// zero distance.
pub const SNAP_DISTANCE_SQUARED: u32 = 0x3CCC_CCCD;

/// A squared distance (binary32 bit pattern) below the snap threshold: the
/// game then takes the distance as exactly zero instead of a square root.
pub fn snaps_to_zero(dist_squared: u32) -> (r: bool)
    ensures
        r == (f32_rank(dist_squared) < f32_rank(SNAP_DISTANCE_SQUARED)),
{
    f32_rank_exec(dist_squared) < f32_rank_exec(SNAP_DISTANCE_SQUARED)
}

/// The desktop build's arithmetic: plain IEEE binary32.
pub struct PcFp;

/// The console's floating-point estimate instructions.
pub struct GcFp;

impl GcFp {
    /// Reciprocal square root estimate of the binary64 value with bit pattern
    /// `val`, as the console computes it; the result is a bit pattern too.
    /// NaN inputs come back quieted.
    pub fn frsqrte(val: u64) -> (r: u64)
        ensures
            r == frsqrte_spec(val),
    {
        let sign = val & SIGN_BIT;
        let exponent = val & EXP_MASK;
        let mantissa = val & MANT_MASK;
        if exponent == 0 && mantissa == 0 {
            return if sign == 0 { POS_INFINITY } else { NEG_INFINITY };
        }
        if exponent == EXP_MASK {
            if mantissa != 0 {
                return val | QUIET_BIT;
            }
            return if sign == 0 { 0 } else { QUIET_NAN };
        }
        if sign != 0 {
            return QUIET_NAN;
        }
        let exponent_lsb = (exponent & 0x0010_0000_0000_0000) ^ 0x0010_0000_0000_0000;
        let new_exponent = 0x3FF0_0000_0000_0000u64.wrapping_sub(
            exponent.wrapping_sub(0x3FE0_0000_0000_0000u64) / 2,
        ) & EXP_MASK;
        let idx = (exponent_lsb | mantissa) >> 37u64;
        assert(idx < 0x10000) by (bit_vector)
            requires
                idx == (exponent_lsb | mantissa) >> 37u64,
                exponent_lsb == (exponent & 0x0010_0000_0000_0000) ^ 0x0010_0000_0000_0000,
                mantissa == val & MANT_MASK,
        ;
        let entry = frsqrte_entry(idx / 2048);
        let offset = (idx % 2048) as u32;
        assert(entry.1 * offset <= entry.1 * 2047) by (nonlinear_arith)
            requires
                offset <= 2047,
        ;
        let frac = (entry.0 - entry.1 * offset) as u64;
        sign | new_exponent | (frac << 26u64)
    }

    /// Reciprocal estimate of the binary64 value with bit pattern `val`, as
    /// the console computes it; the result is a bit pattern too. Zero and
    /// subnormal inputs give infinity of their sign; other inputs below
    /// `2^-128` give the largest finite value whatever their sign.
    pub fn fres(val: u64) -> (r: u64)
        ensures
            r == fres_spec(val),
    {
        let sign = val & SIGN_BIT;
        let exponent = val & EXP_MASK;
        let mantissa = val & MANT_MASK;
        if exponent == 0 {
            return if sign == 0 { POS_INFINITY } else { NEG_INFINITY };
        }
        if exponent < 0x37F0_0000_0000_0000 {
            return F64_MAX;
        }
        if exponent >= 0x47D0_0000_0000_0000 {
            return 0;
        }
        let new_exponent = 0x7FD0_0000_0000_0000 - exponent;
        let idx = mantissa >> 37u64;
        assert(idx < 0x8000) by (bit_vector)
            requires
                idx == mantissa >> 37u64,
                mantissa == val & MANT_MASK,
        ;
        let entry = fres_entry(idx / 1024);
        let offset = (idx % 1024) as u32;
        assert(entry.1 * offset <= entry.1 * 1023) by (nonlinear_arith)
            requires
                offset <= 1023,
        ;
        let frac = (entry.0 - (entry.1 * offset + 1) / 2) as u64;
        sign | new_exponent | (frac << 29u64)
    }
}

} // verus!
