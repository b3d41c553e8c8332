//! IEEE 754 single → half precision conversion on bit patterns (truncating
//! the mantissa), and little-endian packing of half-float texels.
use vstd::prelude::*;
use vstd::arithmetic::power2::pow2;
use vstd::bits::lemma_u32_shr_is_div;

verus! {

/// Sign bit of a single-precision bit pattern.
pub open spec fn f32_sign(bits: u32) -> int {
    (bits / 0x8000_0000) as int
}

/// Biased exponent field of a single-precision bit pattern.
pub open spec fn f32_exponent(bits: u32) -> int {
    ((bits / 0x80_0000) % 256) as int
}

/// Mantissa field of a single-precision bit pattern.
pub open spec fn f32_mantissa(bits: u32) -> int {
    (bits % 0x80_0000) as int
}

/// Half-precision bit pattern with the given sign, exponent and mantissa fields.
pub open spec fn half_bits(sign: int, exponent: int, mantissa: int) -> int {
    sign * 0x8000 + exponent * 0x400 + mantissa
}

/// The half-precision pattern for a single-precision pattern:
/// - infinity stays infinity, NaN stays a quiet NaN keeping the top mantissa bits;
/// - values too large for half precision become infinity;
/// - values in half's subnormal range become subnormals (mantissa truncated);
/// - values smaller than that become zero;
/// - the rest keep the exponent (rebiased) and the top 10 mantissa bits.
/// The sign is always kept.
pub open spec fn spec_f32_to_f16(bits: u32) -> int {
    let s = f32_sign(bits);
    let e = f32_exponent(bits);
    let m = f32_mantissa(bits);
    if e == 255 {
        if m == 0 {
            half_bits(s, 31, 0)
        } else {
            half_bits(s, 31, 512 + (m / 8192) % 512)
        }
    } else if e - 112 >= 31 {
        half_bits(s, 31, 0)
    } else if e - 112 <= 0 {
        if e - 112 < -10 {
            half_bits(s, 0, 0)
        } else {
            half_bits(s, 0, (m + 0x80_0000) / (pow2((126 - e) as nat) as int))
        }
    } else {
        half_bits(s, e - 112, m / 8192)
    }
}

/// Convert a 32-bit float, given by its bit pattern, to IEEE 754
/// half-precision bits.
pub fn f32_to_f16(bits: u32) -> (r: u16)
    ensures
        r == spec_f32_to_f16(bits),
{
    let sign = ((bits >> 16u32) & 0x8000u32) as u16;
    let exp = ((bits >> 23u32) & 0xFFu32) as i32;
    let mant = bits & 0x007F_FFFFu32;
    assert(((bits >> 16u32) & 0x8000u32) == (bits / 0x8000_0000u32) * 0x8000u32) by (bit_vector);
    assert(((bits >> 23u32) & 0xFFu32) == (bits / 0x80_0000u32) % 256u32) by (bit_vector);
    assert((bits & 0x007F_FFFFu32) == bits % 0x80_0000u32) by (bit_vector);
    assert(bits / 0x8000_0000u32 <= 1u32) by (bit_vector);
    let s = sign;
    assert(s == 0 || s == 0x8000);
    if exp == 255 {
        if mant == 0 {
            assert((s | 0x7C00u16) == s + 0x7C00u16) by (bit_vector)
                requires
                    s == 0u16 || s == 0x8000u16,
            ;
            return sign | 0x7C00;
        }
        let m = (mant >> 13u32) as u16;
        assert((mant >> 13u32) == mant / 8192u32) by (bit_vector);
        assert(m < 1024);
        assert((s | 0x7E00u16 | m) == s + 0x7C00u16 + 512u16 + (m % 512u16)) by (bit_vector)
            requires
                s == 0u16 || s == 0x8000u16,
                m < 1024u16,
        ;
        return sign | 0x7E00 | m;
    }
    let exp16 = exp - 127 + 15;
    if exp16 >= 31 {
        assert((s | 0x7C00u16) == s + 0x7C00u16) by (bit_vector)
            requires
                s == 0u16 || s == 0x8000u16,
        ;
        return sign | 0x7C00;
    }
    if exp16 <= 0 {
        if exp16 < -10 {
            return sign;
        }
        let shift = (14 - exp16) as u32;
        let full = mant | 0x0080_0000u32;
        assert((mant | 0x0080_0000u32) == mant + 0x0080_0000u32) by (bit_vector)
            requires
                mant < 0x80_0000u32,
        ;
        assert((full >> shift) < 1024u32) by (bit_vector)
            requires
                full < 0x100_0000u32,
                14u32 <= shift <= 24u32,
        ;
        proof {
            lemma_u32_shr_is_div(full, shift);
        }
        let m = (full >> shift) as u16;
        assert((s | m) == s + m) by (bit_vector)
            requires
                s == 0u16 || s == 0x8000u16,
                m < 1024u16,
        ;
        return sign | m;
    }
    let e16 = exp16 as u16;
    let m = (mant >> 13u32) as u16;
    assert((mant >> 13u32) == mant / 8192u32) by (bit_vector);
    assert(m < 1024);
    assert(e16 < 31);
    assert((s | (e16 << 10u16) | m) == s + e16 * 1024u16 + m) by (bit_vector)
        requires
            s == 0u16 || s == 0x8000u16,
            m < 1024u16,
            e16 < 31u16,
    ;
    sign | (e16 << 10) | m
}

/// The half-float conversion keeps the sign bit, and the result always fits
/// in 16 bits.
pub proof fn lemma_f16_keeps_sign(bits: u32)
    ensures
        0 <= spec_f32_to_f16(bits) < 0x1_0000,
        spec_f32_to_f16(bits) / 0x8000 == f32_sign(bits),
{
    assert(bits / 0x8000_0000u32 <= 1u32) by (bit_vector);
    assert((bits / 0x80_0000u32) % 256u32 < 256u32) by (bit_vector);
    assert(bits % 0x80_0000u32 < 0x80_0000u32) by (bit_vector);
    let e = f32_exponent(bits);
    let m = f32_mantissa(bits);
    if e != 255 && e - 112 < 31 && e - 112 <= 0 && e - 112 >= -10 {
        let k = (126 - e) as nat;
        assert(14 <= k <= 24);
        vstd::arithmetic::power2::lemma_pow2_pos(k);
        vstd::arithmetic::power2::lemma2_to64();
        if k > 14 {
            vstd::arithmetic::power2::lemma_pow2_strictly_increases(14, k);
        }
        assert((m + 0x80_0000) / (pow2(k) as int) < 1024) by (nonlinear_arith)
            requires
                0 <= m < 0x80_0000,
                pow2(k) >= 16384,
        ;
    }
}

/// Negating a value negates its half: flipping the sign bit of the
/// single-precision pattern flips only the sign bit of the half-precision
/// pattern, for every pattern (NaNs and infinities included).
pub proof fn lemma_f16_sign_symmetric(bits: u32)
    ensures
        spec_f32_to_f16(bits ^ 0x8000_0000u32) == ((spec_f32_to_f16(bits) as u16) ^ 0x8000u16) as int,
{
    let nb = bits ^ 0x8000_0000u32;
    assert((nb / 0x80_0000u32) % 256u32 == (bits / 0x80_0000u32) % 256u32) by (bit_vector)
        requires
            nb == bits ^ 0x8000_0000u32,
    ;
    assert(nb % 0x80_0000u32 == bits % 0x80_0000u32) by (bit_vector)
        requires
            nb == bits ^ 0x8000_0000u32,
    ;
    assert(nb / 0x8000_0000u32 + bits / 0x8000_0000u32 == 1u32) by (bit_vector)
        requires
            nb == bits ^ 0x8000_0000u32,
    ;
    lemma_f16_keeps_sign(bits);
    lemma_f16_keeps_sign(nb);
    let h = spec_f32_to_f16(bits);
    let hu = h as u16;
    assert(hu == h);
    assert((hu ^ 0x8000u16) as int == if hu < 0x8000u16 { hu + 0x8000 } else { hu - 0x8000 }) by (bit_vector);
    assert(spec_f32_to_f16(nb) - spec_f32_to_f16(bits) == (f32_sign(nb) - f32_sign(bits)) * 0x8000);
}

/// Within half precision's normal range (2^-14 <= |x| < 65536, that is a
/// biased single-precision exponent from 113 to 142) the conversion rounds
/// toward zero: the half keeps the sign and the binary exponent, and its
/// 10-bit mantissa `hm` is the single-precision mantissa cut after its top
/// 10 bits.  Counted in units of the value's last place (2^(e - 150)), the
/// magnitudes satisfy `|half| <= |x| < |half| + 2^13`, where 2^13 units are
/// 2^(floor(log2 |x|) - 10).
pub proof fn lemma_f16_rounds_toward_zero(bits: u32)
    requires
        113 <= f32_exponent(bits) <= 142,
    ensures
        spec_f32_to_f16(bits) / 0x8000 == f32_sign(bits),
        (spec_f32_to_f16(bits) % 0x8000) / 0x400 == f32_exponent(bits) - 112,
        ({
            let hm = spec_f32_to_f16(bits) % 0x400;
            &&& (0x400 + hm) * 0x2000 <= 0x80_0000 + f32_mantissa(bits)
            &&& 0x80_0000 + f32_mantissa(bits) < (0x400 + hm) * 0x2000 + 0x2000
        }),
{
    assert(bits / 0x8000_0000u32 <= 1u32) by (bit_vector);
    assert(bits % 0x80_0000u32 < 0x80_0000u32) by (bit_vector);
    let s = f32_sign(bits);
    let e = f32_exponent(bits);
    let m = f32_mantissa(bits);
    let q = m / 8192;
    assert(0 <= q < 1024);
    assert(spec_f32_to_f16(bits) == s * 0x8000 + (e - 112) * 0x400 + q);
    assert(q * 8192 <= m < q * 8192 + 8192);
}

/// Append the four channels of an RGBA16F texel (each a single-precision bit
/// pattern) as little-endian half floats.
pub fn push_rgba16f(buf: &mut Vec<u8>, r: u32, g: u32, b: u32, a: u32)
    ensures
        final(buf)@ == old(buf)@ + half_le(r) + half_le(g) + half_le(b) + half_le(a),
{
    push_half(buf, r);
    push_half(buf, g);
    push_half(buf, b);
    push_half(buf, a);
    assert(final(buf)@ =~= old(buf)@ + half_le(r) + half_le(g) + half_le(b) + half_le(a));
}

/// Append the two channels of an RG16F texel as little-endian half floats.
pub fn push_rg16f(buf: &mut Vec<u8>, r: u32, g: u32)
    ensures
        final(buf)@ == old(buf)@ + half_le(r) + half_le(g),
{
    push_half(buf, r);
    push_half(buf, g);
    assert(final(buf)@ =~= old(buf)@ + half_le(r) + half_le(g));
}

/// The two little-endian bytes of the half-float for `bits`.
pub open spec fn half_le(bits: u32) -> Seq<u8> {
    seq![(spec_f32_to_f16(bits) % 256) as u8, (spec_f32_to_f16(bits) / 256) as u8]
}

fn push_half(buf: &mut Vec<u8>, bits: u32)
    ensures
        final(buf)@ == old(buf)@ + half_le(bits),
{
    let h = f32_to_f16(bits);
    assert((h as u8) == h % 256) by (bit_vector);
    assert(((h >> 8u16) as u8) == h / 256) by (bit_vector);
    buf.push(h as u8);
    buf.push((h >> 8) as u8);
    assert(final(buf)@ =~= old(buf)@ + half_le(bits));
}

} // verus!
