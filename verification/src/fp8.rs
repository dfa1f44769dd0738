//! The numbers behind 8-bit and 16-bit codes, as the bits of the wider format
//! that holds them exactly.
use vstd::prelude::*;

use crate::config::GLM52_INDEX_HEAD_DIM;
use crate::oracle::bf16_bits;

verus! {

/// The exponent field of an E4M3 code.
pub open spec fn e4m3_exponent(code: u8) -> int {
    (code as int / 8) % 16
}

/// The mantissa field of an E4M3 code.
pub open spec fn e4m3_mantissa(code: u8) -> int {
    code as int % 8
}

/// Whether an E4M3 code is negative.
pub open spec fn e4m3_negative(code: u8) -> bool {
    code >= 128
}

/// Whether an E4M3 code is no number: the format has no infinities, and the
/// two codes whose bits below the sign are all set hold no number.
pub open spec fn e4m3_nan(code: u8) -> bool {
    code % 128 == 127
}

/// The magnitude of an E4M3 number in units of its smallest step, 2^-9: a zero
/// exponent stands for a subnormal number, any other for the leading one.
pub open spec fn e4m3_units(code: u8) -> int {
    if e4m3_exponent(code) == 0 {
        e4m3_mantissa(code)
    } else {
        (8 + e4m3_mantissa(code)) * vstd::arithmetic::power2::pow2(
            (e4m3_exponent(code) - 1) as nat,
        )
    }
}

/// The exponent field of single-precision bits.
pub open spec fn single_exponent(bits: u32) -> int {
    (bits as int / 0x80_0000) % 256
}

/// The mantissa field of single-precision bits.
pub open spec fn single_mantissa(bits: u32) -> int {
    bits as int % 0x80_0000
}

/// Whether single-precision bits hold a magnitude of so many units of 2^-9:
/// the significand is the magnitude scaled up by the exponent's distance from
/// the one at which its last bit is a unit.
pub open spec fn single_holds(bits: u32, units: int) -> bool {
    if units == 0 {
        single_exponent(bits) == 0 && single_mantissa(bits) == 0
    } else {
        &&& 0 < single_exponent(bits) <= 141
        &&& 0x80_0000 + single_mantissa(bits) == units * vstd::arithmetic::power2::pow2(
            (141 - single_exponent(bits)) as nat,
        )
    }
}

/// Whether single-precision bits hold no number, quietly.
pub open spec fn single_nan(bits: u32) -> bool {
    single_exponent(bits) == 255 && single_mantissa(bits) == 0x40_0000
}

/// The single-precision bits of an E4M3 code, of which two hold no number.
pub fn e4m3_to_f32_bits(code: u8) -> (r: u32)
    ensures
        e4m3_nan(code) ==> single_nan(r),
        !e4m3_nan(code) ==> single_holds(r, e4m3_units(code)),
        (r >= 0x8000_0000) == e4m3_negative(code),
{
    let sign: u32 = if code >= 128 {
        0x8000_0000
    } else {
        0
    };
    if code % 128 == 127 {
        return sign + 0x7fc0_0000;
    }
    let e: u32 = (code as u32 / 8) % 16;
    let m: u32 = code as u32 % 8;
    assert(e == e4m3_exponent(code) && m == e4m3_mantissa(code));
    if e > 0 {
        let r: u32 = sign + (e + 120) * 0x80_0000 + m * 0x10_0000;
        proof {
            assert(single_exponent(r) == e + 120 && single_mantissa(r) == m * 0x10_0000);
            vstd::arithmetic::power2::lemma_pow2_adds((e - 1) as nat, (21 - e) as nat);
            vstd::arithmetic::power2::lemma2_to64();
            let low = vstd::arithmetic::power2::pow2((e - 1) as nat);
            let high = vstd::arithmetic::power2::pow2((21 - e) as nat);
            assert(((8 + m) * low) * high == (8 + m) * (low * high)) by (nonlinear_arith);
            assert(low * high == 0x10_0000);
            assert((8 + m) * (low * high) == 0x10_0000 * (8 + m)) by (nonlinear_arith)
                requires
                    low * high == 0x10_0000,
            ;
            assert(e4m3_units(code) * high == 0x80_0000 + m * 0x10_0000);
            assert(141 - single_exponent(r) == 21 - e);
            assert(e4m3_units(code) > 0) by (nonlinear_arith)
                requires
                    e4m3_units(code) == (8 + m) * low,
                    low > 0,
                    m >= 0,
            ;
        }
        r
    } else {
        proof {
            vstd::arithmetic::power2::lemma2_to64();
            assert(e4m3_units(code) == m);
        }
        match m {
            0 => sign,
            1 => sign + 118 * 0x80_0000,
            2 => sign + 119 * 0x80_0000,
            3 => sign + 119 * 0x80_0000 + 0x40_0000,
            4 => sign + 120 * 0x80_0000,
            5 => sign + 120 * 0x80_0000 + 0x20_0000,
            6 => sign + 120 * 0x80_0000 + 0x40_0000,
            _ => sign + 120 * 0x80_0000 + 0x60_0000,
        }
    }
}

/// The magnitudes of the codes: the first sixteen count up by one, and from
/// there on eight codes later is twice as much. A code and its negative twin
/// have one magnitude, and a larger code of one sign the larger one.
pub proof fn eight_codes_double_the_magnitude(code: u8)
    ensures
        code < 16 ==> e4m3_units(code) == code,
        8 <= code < 120 ==> e4m3_units((code + 8) as u8) == 2 * e4m3_units(code),
        code < 128 ==> e4m3_units((code + 128) as u8) == e4m3_units(code),
        code < 127 ==> e4m3_units(code) < e4m3_units((code + 1) as u8),
        e4m3_nan(code) <==> code == 127 || code == 255,
        e4m3_negative(code) <==> code >= 128,
{
    vstd::arithmetic::power2::lemma2_to64();
    let e = e4m3_exponent(code);
    let m = e4m3_mantissa(code);
    let one = vstd::arithmetic::power2::pow2(0);
    assert(one == 1);
    assert((8 + m) * one == 8 + m) by (nonlinear_arith)
        requires
            one == 1,
    ;
    assert((8 + 0) * one == 8) by (nonlinear_arith)
        requires
            one == 1,
    ;
    if e == 0 && code < 128 {
        assert(e4m3_units(8) == (8 + 0) * one);
    }
    if e > 0 {
        let low = vstd::arithmetic::power2::pow2((e - 1) as nat);
        vstd::arithmetic::power2::lemma_pow2_unfold(e as nat);
        vstd::arithmetic::power2::lemma_pow2_pos((e - 1) as nat);
        assert((8 + m) * (2 * low) == 2 * ((8 + m) * low)) by (nonlinear_arith);
        assert((8 + m + 1) * low == (8 + m) * low + low) by (nonlinear_arith);
        assert(8 * (2 * low) == 16 * low) by (nonlinear_arith);
        if m == 7 {
            assert((8 + m + 1) * low == 16 * low) by (nonlinear_arith)
                requires
                    m == 7,
            ;
        }
    }
}

/// The single-precision bits of bfloat16 bits: the upper half.
pub fn bf16_to_f32_bits(bits: u16) -> (r: u32)
    ensures
        r == bits * 0x1_0000,
{
    bits as u32 * 0x1_0000
}

/// Widens the bytes of an indexer norm to single-precision bits, or says how
/// many bytes there are where that is not a head's worth.
pub fn upcast_bf16_to_f32(src: &Vec<u8>) -> (r: Result<Vec<u32>, usize>)
    ensures
        match r {
            Ok(bits) => {
                &&& src.len() == 256
                &&& bits.len() == 128
                &&& forall|i: int|
                    0 <= i < 128 ==> #[trigger] bits@[i] == 0x1_0000 * (src@[2 * i] + 256 * src@[2
                        * i + 1])
            },
            Err(got) => got == src.len() && src.len() != 256,
        },
{
    if src.len() != GLM52_INDEX_HEAD_DIM * 2 {
        return Err(src.len());
    }
    let halves: Vec<u16> = bf16_bits(src);
    let mut out: Vec<u32> = Vec::new();
    let mut i: usize = 0;
    while i < halves.len()
        invariant
            halves.len() == 128,
            src.len() == 256,
            i <= 128,
            out.len() == i,
            forall|j: int|
                0 <= j < 128 ==> #[trigger] halves@[j] == src@[2 * j] + 256 * src@[2 * j + 1],
            forall|j: int|
                0 <= j < i ==> #[trigger] out@[j] == 0x1_0000 * (src@[2 * j] + 256 * src@[2 * j
                    + 1]),
        decreases 128 - i,
    {
        out.push(bf16_to_f32_bits(halves[i]));
        i = i + 1;
    }
    Ok(out)
}

} // verus!
