//! Parameter codecs: pure conversions between physical units and the
//! chip's register encodings, referenced against the crystal frequency
//! [`FXOSC`](crate::lowlevel::FXOSC).
//!
//! Rounding policy, fixed here and relied on by every contract: every
//! quotient rounds to the nearest integer (ties upward), never
//! truncates. Out-of-range physical values saturate to the nearest
//! representable encoding; no conversion overflows a register field.
//!
//! Each mantissa/exponent encoder picks the smallest exponent whose
//! rounded mantissa fits its mantissa field, then clamps the mantissa
//! into the field.

use vstd::prelude::*;

use vstd::arithmetic::div_mod::{
    lemma_breakdown, lemma_div_denominator, lemma_div_is_ordered, lemma_div_pos_is_pos,
    lemma_fundamental_div_mod, lemma_fundamental_div_mod_converse,
};
use vstd::arithmetic::mul::{lemma_mul_inequality, lemma_mul_upper_bound};
use vstd::arithmetic::power2::{
    lemma2_to64, lemma_pow2_adds, lemma_pow2_pos, lemma_pow2_strictly_increases, pow2,
};

use crate::lowlevel::FXOSC;

verus! {

/// Division of nonnegative terms, rounded to the nearest integer, ties
/// upward.
pub open spec fn rdiv(a: int, b: int) -> int
    recommends
        a >= 0,
        b > 0,
{
    (a + b / 2) / b
}

/// The 24-bit frequency control word for a carrier of `hz` Hertz:
/// `hz * 2^16 / FXOSC`, rounded to nearest, saturated to 24 bits.
pub open spec fn spec_freq_word(hz: u64) -> int {
    let w = rdiv(hz * 0x10000, FXOSC as int);
    if w > 0xFFFFFF {
        0xFFFFFF
    } else {
        w
    }
}

/// The three frequency register bytes, low to high.
pub open spec fn spec_from_frequency(hz: u64) -> (u8, u8, u8) {
    let w = spec_freq_word(hz);
    ((w % 256) as u8, ((w / 256) % 256) as u8, (w / 0x10000) as u8)
}

/// The carrier frequency a frequency byte triple denotes:
/// `word * FXOSC / 2^16`, rounded to nearest.
pub open spec fn spec_to_frequency(f0: u8, f1: u8, f2: u8) -> int {
    rdiv((f0 + f1 * 256 + f2 * 0x10000) * (FXOSC as int), 0x10000)
}

/// Splits a carrier frequency in Hertz into the three frequency register
/// bytes, low byte first. Frequencies above the representable maximum
/// saturate to the all-ones control word.
pub fn from_frequency(hz: u64) -> (r: (u8, u8, u8))
    ensures
        r == spec_from_frequency(hz),
{
    let clamped: u64 = if hz > 7_000_000_000 {
        7_000_000_000
    } else {
        hz
    };
    let w: u64 = (clamped * 0x10000 + 13_500_000) / 27_000_000;
    let word: u64 = if w > 0xFFFFFF {
        0xFFFFFF
    } else {
        w
    };
    proof {
        if hz > 7_000_000_000 {
            lemma_div_is_ordered(
                (7_000_000_000 * 0x10000 + 13_500_000) as int,
                hz * 0x10000 + 13_500_000,
                FXOSC as int,
            );
            assert((7_000_000_000 * 0x10000 + 13_500_000) / 27_000_000 > 0xFFFFFF);
        }
        assert(word == spec_freq_word(hz));
    }
    ((word % 256) as u8, ((word / 256) % 256) as u8, (word / 0x10000) as u8)
}

/// Recovers the carrier frequency in Hertz from the three frequency
/// register bytes, low byte first; accurate to one quantization step of
/// `FXOSC / 2^16` Hertz.
pub fn to_frequency(f0: u8, f1: u8, f2: u8) -> (r: u64)
    ensures
        r == spec_to_frequency(f0, f1, f2),
{
    let word: u64 = f0 as u64 + (f1 as u64) * 256 + (f2 as u64) * 0x10000;
    (word * 27_000_000 + 0x8000) / 0x10000
}

/// The rounded mantissa quotient `rdiv(num, FXOSC * 2^e)`, where `num`
/// is the target value pre-scaled by the formula's power of two.
pub open spec fn m2_of(num: int, e: nat) -> int {
    rdiv(num, (FXOSC as int) * pow2(e))
}

/// The smallest exponent `k` with `e <= k <= emax` whose rounded
/// mantissa quotient is at most `m2max`; `emax` if none is.
pub open spec fn search_of(num: int, m2max: int, emax: nat, e: nat) -> nat
    decreases emax - e,
{
    if e >= emax {
        emax
    } else if m2_of(num, e) <= m2max {
        e
    } else {
        search_of(num, m2max, emax, e + 1)
    }
}

/// Finds the smallest exponent `e <= emax` with
/// `rdiv(num, FXOSC * 2^e) <= m2max` and returns that quotient and `e`;
/// saturates at `emax`.
fn search_exponent(num: u128, m2max: u128, emax: u8) -> (r: (u128, u8))
    requires
        emax <= 15,
        num <= 0x1000_0000_0000_0000_0000_0000,
    ensures
        r.1 == search_of(num as int, m2max as int, emax as nat, 0),
        r.0 == m2_of(num as int, r.1 as nat),
        r.1 <= emax,
{
    let mut e: u8 = 0;
    let mut denom: u128 = 27_000_000;
    proof {
        lemma2_to64();
        assert(denom == (FXOSC as int) * pow2(0));
    }
    while e < emax
        invariant
            e <= emax <= 15,
            num <= 0x1000_0000_0000_0000_0000_0000,
            denom == (FXOSC as int) * pow2(e as nat),
            search_of(num as int, m2max as int, emax as nat, 0) == search_of(
                num as int,
                m2max as int,
                emax as nat,
                e as nat,
            ),
        decreases emax - e,
    {
        proof {
            lemma2_to64();
            if (e as nat) < 14 {
                lemma_pow2_strictly_increases(e as nat, 14);
            }
            assert(pow2(e as nat) <= pow2(14));
        }
        let m2: u128 = (num + denom / 2) / denom;
        if m2 <= m2max {
            return (m2, e);
        }
        proof {
            lemma_pow2_adds(e as nat, 1);
        }
        denom = denom * 2;
        e = e + 1;
    }
    proof {
        lemma_pow2_pos(e as nat);
        lemma2_to64();
        if (e as nat) < 15 {
            lemma_pow2_strictly_increases(e as nat, 15);
        }
    }
    let m2: u128 = (num + denom / 2) / denom;
    (m2, e)
}

/// The data rate byte pair for `baud` bits per second, per the formula
/// `rate = (256 + m) * 2^e * FXOSC / 2^28`: eight-bit mantissa, then
/// four-bit exponent. The smallest exponent whose rounded mantissa fits
/// is chosen; out-of-range rates saturate.
pub open spec fn spec_from_drate(baud: u64) -> (u8, u8) {
    let num = baud * pow2(28);
    let e = search_of(num as int, 511, 15, 0);
    let m2 = m2_of(num as int, e);
    let m: u8 = if m2 < 256 {
        0u8
    } else if m2 > 511 {
        255u8
    } else {
        (m2 - 256) as u8
    };
    (m, e as u8)
}

/// The data rate in bits per second a mantissa/exponent pair denotes,
/// rounded to the nearest integer.
pub open spec fn spec_to_drate(m: u8, e: u8) -> int {
    rdiv((256 + m) * (FXOSC as int) * pow2(e as nat), pow2(28) as int)
}

/// Encodes a data rate in bits per second as its mantissa/exponent byte
/// pair. Out-of-range rates saturate to the nearest representable
/// encoding.
pub fn from_drate(baud: u64) -> (r: (u8, u8))
    ensures
        r == spec_from_drate(baud),
{
    let num: u128 = (baud as u128) * 0x10000000;
    proof {
        lemma2_to64();
    }
    let (m2, e) = search_exponent(num, 511, 15);
    let m: u8 = if m2 < 256 {
        0
    } else if m2 > 511 {
        255
    } else {
        (m2 - 256) as u8
    };
    (m, e)
}

/// Decodes a data rate mantissa/exponent pair back to bits per second.
pub fn to_drate(m: u8, e: u8) -> (r: u64)
    requires
        e <= 15,
    ensures
        r == spec_to_drate(m, e),
{
    proof {
        lemma2_to64();
        if (e as nat) < 15 {
            lemma_pow2_strictly_increases(e as nat, 15);
        }
    }
    let scale: u64 = pow2_u64(e);
    let b: u64 = (256 + m as u64) * 27_000_000;
    proof {
        lemma_mul_upper_bound(b as int, (511 * 27_000_000) as int, scale as int, 32768);
    }
    let a: u64 = b * scale;
    (a + 0x8000000) / 0x10000000
}

/// `2^e` as a machine word.
fn pow2_u64(e: u8) -> (r: u64)
    requires
        e <= 32,
    ensures
        r == pow2(e as nat),
{
    let mut i: u8 = 0;
    let mut p: u64 = 1;
    proof {
        lemma2_to64();
    }
    while i < e
        invariant
            i <= e <= 32,
            p == pow2(i as nat),
        decreases e - i,
    {
        proof {
            lemma_pow2_adds(i as nat, 1);
            lemma2_to64();
            if (i as nat) < 31 {
                lemma_pow2_strictly_increases(i as nat, 31);
            }
        }
        p = p * 2;
        i = i + 1;
    }
    p
}

/// Monotonicity of the mantissa quotient in the target.
proof fn lemma_m2_le(a: int, b: int, e: nat)
    requires
        a <= b,
    ensures
        m2_of(a, e) <= m2_of(b, e),
{
    lemma_pow2_pos(e);
    let d = (FXOSC as int) * pow2(e);
    lemma_div_is_ordered(a + d / 2, b + d / 2, d);
}

/// The mantissa quotient shrinks by one halving step of the band.
proof fn lemma_m2_antitone_step(num: int, e: nat)
    requires
        num >= 0,
    ensures
        m2_of(num, e + 1) <= m2_of(num, e),
{
    lemma_pow2_pos(e);
    lemma_pow2_adds(e, 1);
    lemma2_to64();
    let d = (FXOSC as int) * pow2(e);
    assert((FXOSC as int) * pow2(e + 1) == 2 * d);
    assert(d == 2 * (13_500_000 * pow2(e)));
    lemma_fundamental_div_mod(num + d, 2);
    let q = (num + d) / 2;
    assert(q <= num + d / 2);
    lemma_div_denominator(num + d, 2, d);
    lemma_div_is_ordered(q, num + d / 2, d);
}

/// The mantissa quotient shrinks as the exponent grows.
proof fn lemma_m2_antitone(num: int, e1: nat, e2: nat)
    requires
        num >= 0,
        e1 <= e2,
    ensures
        m2_of(num, e2) <= m2_of(num, e1),
    decreases e2 - e1,
{
    if e1 < e2 {
        lemma_m2_antitone(num, e1, (e2 - 1) as nat);
        lemma_m2_antitone_step(num, (e2 - 1) as nat);
    }
}


/// The deviation byte pair for `dev` Hertz, per the formula
/// `deviation = (8 + m) * 2^e * FXOSC / 2^17`: three-bit mantissa, then
/// three-bit exponent. The smallest exponent whose rounded mantissa
/// fits is chosen; out-of-range deviations saturate.
pub open spec fn spec_from_deviation(dev: u64) -> (u8, u8) {
    let num = dev * pow2(17);
    let e = search_of(num as int, 15, 7, 0);
    let m2 = m2_of(num as int, e);
    let m: u8 = if m2 < 8 {
        0u8
    } else if m2 > 15 {
        7u8
    } else {
        (m2 - 8) as u8
    };
    (m, e as u8)
}

/// The deviation in Hertz a mantissa/exponent pair denotes, rounded to
/// the nearest integer.
pub open spec fn spec_to_deviation(m: u8, e: u8) -> int {
    rdiv((8 + m) * (FXOSC as int) * pow2(e as nat), pow2(17) as int)
}

/// Encodes a frequency deviation in Hertz as its mantissa/exponent byte
/// pair. Out-of-range deviations saturate to the nearest representable
/// encoding.
pub fn from_deviation(dev: u64) -> (r: (u8, u8))
    ensures
        r == spec_from_deviation(dev),
{
    let num: u128 = (dev as u128) * 0x20000;
    proof {
        lemma2_to64();
    }
    let (m2, e) = search_exponent(num, 15, 7);
    let m: u8 = if m2 < 8 {
        0
    } else if m2 > 15 {
        7
    } else {
        (m2 - 8) as u8
    };
    (m, e)
}

/// Decodes a deviation mantissa/exponent pair back to Hertz.
pub fn to_deviation(m: u8, e: u8) -> (r: u64)
    requires
        m <= 7,
        e <= 7,
    ensures
        r == spec_to_deviation(m, e),
{
    proof {
        lemma2_to64();
        if (e as nat) < 7 {
            lemma_pow2_strictly_increases(e as nat, 7);
        }
    }
    let scale: u64 = pow2_u64(e);
    let b: u64 = (8 + m as u64) * 27_000_000;
    proof {
        lemma_mul_upper_bound(b as int, (15 * 27_000_000) as int, scale as int, 128);
    }
    let a: u64 = b * scale;
    (a + 0x10000) / 0x20000
}

/// The rounded channel-bandwidth mantissa quotient
/// `rdiv(FXOSC, 8 * bw * 2^e)`.
pub open spec fn bw_quot(bw: u64, e: nat) -> int
    recommends
        bw > 0,
{
    rdiv(FXOSC as int, 8 * bw * pow2(e))
}

/// The smallest exponent `k` with `e <= k <= 3` whose rounded
/// channel-bandwidth mantissa quotient is at most 7; 3 if none is.
pub open spec fn bw_search(bw: u64, e: nat) -> nat
    decreases 3 - e,
{
    if e >= 3 {
        3
    } else if bw_quot(bw, e) <= 7 {
        e
    } else {
        bw_search(bw, e + 1)
    }
}

/// The channel bandwidth byte pair for `bw` Hertz, per the formula
/// `bandwidth = FXOSC / (8 * (4 + m) * 2^e)`: two-bit mantissa, then
/// two-bit exponent. The smallest exponent whose rounded mantissa fits
/// is chosen; out-of-range bandwidths saturate, and a zero bandwidth
/// saturates to the narrowest encoding.
pub open spec fn spec_from_chanbw(bw: u64) -> (u8, u8) {
    if bw == 0 {
        (3u8, 3u8)
    } else {
        let e = bw_search(bw, 0);
        let m2 = bw_quot(bw, e);
        let m: u8 = if m2 < 4 {
            0u8
        } else if m2 > 7 {
            3u8
        } else {
            (m2 - 4) as u8
        };
        (m, e as u8)
    }
}

/// The channel bandwidth in Hertz a mantissa/exponent pair denotes,
/// rounded to the nearest integer.
pub open spec fn spec_to_chanbw(m: u8, e: u8) -> int {
    rdiv(FXOSC as int, 8 * (4 + m) * pow2(e as nat))
}

/// Encodes a channel bandwidth in Hertz as its mantissa/exponent byte
/// pair. Out-of-range bandwidths saturate to the nearest representable
/// encoding.
pub fn from_chanbw(bw: u64) -> (r: (u8, u8))
    ensures
        r == spec_from_chanbw(bw),
{
    if bw == 0 {
        return (3, 3);
    }
    proof {
        lemma2_to64();
    }
    let mut e: u8 = 0;
    let mut denom: u128 = 8 * (bw as u128);
    proof {
        assert(denom == 8 * bw * pow2(0));
    }
    while e < 3
        invariant
            e <= 3,
            bw > 0,
            denom == 8 * (bw as int) * pow2(e as nat),
            bw_search(bw, 0) == bw_search(bw, e as nat),
        decreases 3 - e,
    {
        proof {
            lemma2_to64();
            if (e as nat) < 2 {
                lemma_pow2_strictly_increases(e as nat, 2);
            }
            lemma_pow2_pos(e as nat);
            vstd::arithmetic::mul::lemma_mul_strictly_positive(8 * (bw as int), pow2(e as nat) as int);
            lemma_mul_upper_bound(
                8 * (bw as int),
                (8 * 0xFFFF_FFFF_FFFF_FFFFu128) as int,
                pow2(e as nat) as int,
                4,
            );
        }
        let m2: u128 = (27_000_000 + denom / 2) / denom;
        if m2 <= 7 {
            let m: u8 = if m2 < 4 {
                0
            } else {
                (m2 - 4) as u8
            };
            return (m, e);
        }
        proof {
            lemma_pow2_adds(e as nat, 1);
            lemma2_to64();
            let p = pow2(e as nat) as int;
            let p2 = pow2((e + 1) as nat) as int;
            assert(p2 == 2 * p);
            assert(8 * (bw as int) * p2 == 2 * (8 * (bw as int) * p)) by (nonlinear_arith)
                requires
                    p2 == 2 * p,
            ;
        }
        denom = denom * 2;
        e = e + 1;
    }
    proof {
        lemma_pow2_pos(3);
        lemma2_to64();
        vstd::arithmetic::mul::lemma_mul_strictly_positive(8 * (bw as int), pow2(e as nat) as int);
    }
    let m2: u128 = (27_000_000 + denom / 2) / denom;
    let m: u8 = if m2 < 4 {
        0
    } else if m2 > 7 {
        3
    } else {
        (m2 - 4) as u8
    };
    (m, e)
}

/// Decodes a channel bandwidth mantissa/exponent pair back to Hertz.
pub fn to_chanbw(m: u8, e: u8) -> (r: u64)
    requires
        m <= 3,
        e <= 3,
    ensures
        r == spec_to_chanbw(m, e),
{
    proof {
        lemma2_to64();
        if (e as nat) < 3 {
            lemma_pow2_strictly_increases(e as nat, 3);
        }
    }
    let scale: u64 = pow2_u64(e);
    proof {
        lemma_mul_upper_bound((8 * (4 + m as u64)) as int, 56, scale as int, 8);
        vstd::arithmetic::mul::lemma_mul_strictly_positive((8 * (4 + m as u64)) as int, scale as int);
    }
    let denom: u64 = 8 * (4 + m as u64) * scale;
    (27_000_000 + denom / 2) / denom
}

/// The five-bit intermediate-frequency field for `hz` Hertz:
/// `hz * 2^10 / FXOSC`, rounded to nearest, saturated to five bits.
pub open spec fn spec_from_freq_if(hz: u64) -> u8 {
    let w = rdiv(hz * 1024, FXOSC as int);
    if w > 31 {
        31u8
    } else {
        w as u8
    }
}

/// Encodes an intermediate frequency in Hertz as the five-bit register
/// field. Out-of-range frequencies saturate to the field maximum.
pub fn from_freq_if(hz: u64) -> (r: u8)
    ensures
        r == spec_from_freq_if(hz),
{
    let num: u128 = (hz as u128) * 1024 + 13_500_000;
    let w: u128 = num / 27_000_000;
    if w > 31 {
        31
    } else {
        w as u8
    }
}

/// The largest carrier frequency whose control word fits 24 bits.
pub const FREQ_HZ_MAX: u64 = 6_911_999_794;

/// Frequency round trip: for every carrier frequency up to the
/// representable maximum, decoding the encoded byte triple lands
/// within one quantization step (`FXOSC / 2^16` Hertz) of the
/// requested frequency.
pub proof fn lemma_frequency_round_trip(hz: u64)
    requires
        hz <= FREQ_HZ_MAX,
    ensures
        ({
            let bytes = spec_from_frequency(hz);
            let back = spec_to_frequency(bytes.0, bytes.1, bytes.2);
            &&& back <= hz + (FXOSC as int) / 0x10000
            &&& hz <= back + (FXOSC as int) / 0x10000
        }),
{
    let c = FXOSC as int;
    let x = hz * 0x10000 + 13_500_000;
    let w = x / c;
    lemma_div_pos_is_pos(x, c);
    lemma_div_is_ordered(x, FREQ_HZ_MAX * 0x10000 + 13_500_000, c);
    lemma_fundamental_div_mod_converse(
        FREQ_HZ_MAX * 0x10000 + 13_500_000,
        c,
        0xFFFFFF,
        26_999_584,
    );
    assert(w <= 0xFFFFFF);
    assert(spec_freq_word(hz) == w);

    // The three bytes reassemble to the control word.
    lemma_fundamental_div_mod(w, 0x10000);
    lemma_breakdown(w, 256, 256);
    lemma_mod_bound(w, 256);
    lemma_mod_bound(w / 256, 256);
    lemma_mod_bound(w, 0x10000);
    lemma_div_is_ordered(w, 0xFFFFFF, 0x10000);
    let b0 = (w % 256) as u8;
    let b1 = ((w / 256) % 256) as u8;
    let b2 = (w / 0x10000) as u8;
    assert(b0 + b1 * 256 + b2 * 0x10000 == w);

    // The two roundings each move the value by at most half a step.
    lemma_fundamental_div_mod(x, c);
    lemma_fundamental_div_mod(w * c + 0x8000, 0x10000);
    lemma_mod_bound(x, c);
    lemma_mod_bound(w * c + 0x8000, 0x10000);
    assert(spec_to_frequency(b0, b1, b2) == (w * c + 0x8000) / 0x10000);
}

/// Division by a positive divisor yields a remainder below it.
proof fn lemma_mod_bound(x: int, d: int)
    requires
        x >= 0,
        d > 0,
    ensures
        0 <= x % d < d,
{
    vstd::arithmetic::div_mod::lemma_mod_division_less_than_divisor(x, d);
    vstd::arithmetic::div_mod::lemma_mod_bound(x, d);
}

/// From `e0` on, the search skips every exponent whose band overflows.
proof fn lemma_search_skip(num: int, m2max: int, emax: nat, e0: nat, e: nat)
    requires
        e0 <= e <= emax,
        forall|j: nat| e0 <= j < e ==> m2_of(num, j) > m2max,
    ensures
        search_of(num, m2max, emax, e0) == search_of(num, m2max, emax, e),
    decreases e - e0,
{
    if e0 < e {
        lemma_search_skip(num, m2max, emax, e0 + 1, e);
    }
}

/// The search never leaves the exponent range it was given.
proof fn lemma_search_bounded(num: int, m2max: int, emax: nat, e0: nat)
    requires
        e0 <= emax,
    ensures
        e0 <= search_of(num, m2max, emax, e0) <= emax,
    decreases emax - e0,
{
    if e0 < emax && m2_of(num, e0) > m2max {
        lemma_search_bounded(num, m2max, emax, e0 + 1);
    }
}

/// A search that stops short of the range end stops on a fitting band.
proof fn lemma_search_fits(num: int, m2max: int, emax: nat, e0: nat)
    requires
        e0 <= emax,
        search_of(num, m2max, emax, e0) < emax,
    ensures
        m2_of(num, search_of(num, m2max, emax, e0)) <= m2max,
    decreases emax - e0,
{
    if e0 < emax && m2_of(num, e0) > m2max {
        lemma_search_fits(num, m2max, emax, e0 + 1);
    }
}

/// The search result is at most any fitting exponent in range.
proof fn lemma_search_le_fitting(num: int, m2max: int, emax: nat, e0: nat, e: nat)
    requires
        e0 <= e <= emax,
        m2_of(num, e) <= m2max,
    ensures
        search_of(num, m2max, emax, e0) <= e,
    decreases e - e0,
{
    if e0 < e && m2_of(num, e0) > m2max {
        lemma_search_le_fitting(num, m2max, emax, e0 + 1, e);
    }
}

/// The products of two ordered mantissa bands are ordered: within one
/// band by the mantissa, across bands because a full band is below the
/// next band's floor.
proof fn lemma_band_product_le(base: int, m1: int, e1: nat, m2: int, e2: nat)
    requires
        base >= 1,
        0 <= m1 < base,
        0 <= m2 < base,
        e1 < e2 || (e1 == e2 && m1 <= m2),
    ensures
        (base + m1) * pow2(e1) <= (base + m2) * pow2(e2),
{
    lemma_pow2_pos(e1);
    lemma_pow2_pos(e2);
    if e1 == e2 {
        lemma_mul_inequality(base + m1, base + m2, pow2(e1) as int);
    } else {
        lemma_pow2_adds(e1, 1);
        lemma2_to64();
        let p1 = pow2(e1) as int;
        assert((base + m1) * p1 <= (2 * base) * p1) by (nonlinear_arith)
            requires
                0 <= m1 < base,
                p1 >= 1,
        ;
        assert((2 * base) * p1 == base * pow2((e1 + 1) as nat)) by (nonlinear_arith)
            requires
                pow2((e1 + 1) as nat) == 2 * pow2(e1),
                p1 == pow2(e1),
        ;
        if e1 + 1 < e2 {
            lemma_pow2_strictly_increases((e1 + 1) as nat, e2);
        }
        lemma_mul_inequality(pow2((e1 + 1) as nat) as int, pow2(e2) as int, base);
        lemma_mul_inequality(base, base + m2, pow2(e2) as int);
        assert(base * pow2((e1 + 1) as nat) == pow2((e1 + 1) as nat) * base) by (nonlinear_arith);
        assert(base * pow2(e2) == pow2(e2) * base) by (nonlinear_arith);
    }
}

/// Decoded data rates are ordered as their byte pairs are, exponent
/// first, across the field's full exponent range.
pub proof fn lemma_drate_decode_monotone(m1: u8, e1: u8, m2: u8, e2: u8)
    requires
        e1 < e2 || (e1 == e2 && m1 <= m2),
    ensures
        spec_to_drate(m1, e1) <= spec_to_drate(m2, e2),
{
    lemma_band_product_le(256, m1 as int, e1 as nat, m2 as int, e2 as nat);
    let a1 = (256 + m1) * (FXOSC as int) * pow2(e1 as nat);
    let a2 = (256 + m2) * (FXOSC as int) * pow2(e2 as nat);
    assert(a1 <= a2) by (nonlinear_arith)
        requires
            (256 + m1) * pow2(e1 as nat) <= (256 + m2) * pow2(e2 as nat),
            a1 == (256 + m1) * (FXOSC as int) * pow2(e1 as nat),
            a2 == (256 + m2) * (FXOSC as int) * pow2(e2 as nat),
    ;
    lemma_pow2_pos(28);
    lemma_div_is_ordered(a1 + (pow2(28) as int) / 2, a2 + (pow2(28) as int) / 2, pow2(28) as int);
}

/// Decoded deviations are ordered as their byte pairs are, exponent
/// first, across the field's full exponent range.
pub proof fn lemma_deviation_decode_monotone(m1: u8, e1: u8, m2: u8, e2: u8)
    requires
        m1 < 8,
        m2 < 8,
        e1 < e2 || (e1 == e2 && m1 <= m2),
    ensures
        spec_to_deviation(m1, e1) <= spec_to_deviation(m2, e2),
{
    lemma_band_product_le(8, m1 as int, e1 as nat, m2 as int, e2 as nat);
    let a1 = (8 + m1) * (FXOSC as int) * pow2(e1 as nat);
    let a2 = (8 + m2) * (FXOSC as int) * pow2(e2 as nat);
    assert(a1 <= a2) by (nonlinear_arith)
        requires
            (8 + m1) * pow2(e1 as nat) <= (8 + m2) * pow2(e2 as nat),
            a1 == (8 + m1) * (FXOSC as int) * pow2(e1 as nat),
            a2 == (8 + m2) * (FXOSC as int) * pow2(e2 as nat),
    ;
    lemma_pow2_pos(17);
    lemma_div_is_ordered(a1 + (pow2(17) as int) / 2, a2 + (pow2(17) as int) / 2, pow2(17) as int);
}

/// Decoded channel bandwidths are ordered opposite to their byte
/// pairs, exponent first: a larger encoding divides the crystal
/// frequency by more.
pub proof fn lemma_chanbw_decode_antitone(m1: u8, e1: u8, m2: u8, e2: u8)
    requires
        m1 < 4,
        m2 < 4,
        e1 < e2 || (e1 == e2 && m1 <= m2),
    ensures
        spec_to_chanbw(m2, e2) <= spec_to_chanbw(m1, e1),
{
    lemma_band_product_le(4, m1 as int, e1 as nat, m2 as int, e2 as nat);
    let d1 = 8 * (4 + m1) * pow2(e1 as nat);
    let d2 = 8 * (4 + m2) * pow2(e2 as nat);
    lemma_pow2_pos(e1 as nat);
    lemma_pow2_pos(e2 as nat);
    assert(d1 <= d2 && d1 > 0 && d1 % 2 == 0 && d2 % 2 == 0) by (nonlinear_arith)
        requires
            (4 + m1) * pow2(e1 as nat) <= (4 + m2) * pow2(e2 as nat),
            pow2(e1 as nat) >= 1,
            pow2(e2 as nat) >= 1,
            m1 >= 0,
            m2 >= 0,
            d1 == 8 * (4 + m1) * pow2(e1 as nat),
            d2 == 8 * (4 + m2) * pow2(e2 as nat),
    ;
    lemma_rdiv_antitone_in_divisor(FXOSC as int, d1, d2);
}

/// Rounded division of a fixed dividend shrinks as an even divisor
/// grows.
proof fn lemma_rdiv_antitone_in_divisor(a: int, d1: int, d2: int)
    requires
        a >= 0,
        0 < d1 <= d2,
        d1 % 2 == 0,
        d2 % 2 == 0,
    ensures
        rdiv(a, d2) <= rdiv(a, d1),
{
    let q2 = (a + d2 / 2) / d2;
    lemma_div_pos_is_pos(a + d2 / 2, d2);
    lemma_fundamental_div_mod(a + d2 / 2, d2);
    if q2 == 0 {
        lemma_div_pos_is_pos(a + d1 / 2, d1);
    } else {
        assert(q2 * d1 <= a + d1 / 2) by (nonlinear_arith)
            requires
                q2 >= 1,
                0 < d1 <= d2,
                d1 % 2 == 0,
                d2 % 2 == 0,
                q2 * d2 <= a + d2 / 2,
        ;
        lemma_div_is_ordered(q2 * d1, a + d1 / 2, d1);
        vstd::arithmetic::div_mod::lemma_div_by_multiple(q2, d1);
    }
}

/// Encoding is ordered: a higher data rate never encodes to a
/// lexicographically smaller (exponent, mantissa) pair.
proof fn lemma_drate_encode_lex(b1: u64, b2: u64)
    requires
        b1 <= b2,
    ensures
        ({
            let r1 = spec_from_drate(b1);
            let r2 = spec_from_drate(b2);
            r1.1 < r2.1 || (r1.1 == r2.1 && r1.0 <= r2.0)
        }),
{
    lemma2_to64();
    let n1 = (b1 * pow2(28)) as int;
    let n2 = (b2 * pow2(28)) as int;
    lemma_mul_inequality(b1 as int, b2 as int, pow2(28) as int);
    let e1 = search_of(n1, 511, 15, 0);
    let e2 = search_of(n2, 511, 15, 0);
    lemma_search_bounded(n1, 511, 15, 0);
    lemma_search_bounded(n2, 511, 15, 0);
    if e2 < 15 {
        lemma_search_fits(n2, 511, 15, 0);
        lemma_m2_le(n1, n2, e2);
        lemma_search_le_fitting(n1, 511, 15, 0, e2);
    }
    if e1 == e2 {
        lemma_m2_le(n1, n2, e1);
    }
}

/// Encoding is ordered: a higher deviation never encodes to a
/// lexicographically smaller (exponent, mantissa) pair.
proof fn lemma_deviation_encode_lex(d1: u64, d2: u64)
    requires
        d1 <= d2,
    ensures
        ({
            let r1 = spec_from_deviation(d1);
            let r2 = spec_from_deviation(d2);
            r1.1 < r2.1 || (r1.1 == r2.1 && r1.0 <= r2.0)
        }),
{
    lemma2_to64();
    let n1 = (d1 * pow2(17)) as int;
    let n2 = (d2 * pow2(17)) as int;
    lemma_mul_inequality(d1 as int, d2 as int, pow2(17) as int);
    let e1 = search_of(n1, 15, 7, 0);
    let e2 = search_of(n2, 15, 7, 0);
    lemma_search_bounded(n1, 15, 7, 0);
    lemma_search_bounded(n2, 15, 7, 0);
    if e2 < 7 {
        lemma_search_fits(n2, 15, 7, 0);
        lemma_m2_le(n1, n2, e2);
        lemma_search_le_fitting(n1, 15, 7, 0, e2);
    }
    if e1 == e2 {
        lemma_m2_le(n1, n2, e1);
    }
}

/// The data rate a request actually configures is monotone in the
/// requested rate, across the exponent field's full range.
pub proof fn lemma_drate_requested_monotone(b1: u64, b2: u64)
    requires
        b1 <= b2,
    ensures
        spec_to_drate(spec_from_drate(b1).0, spec_from_drate(b1).1) <= spec_to_drate(
            spec_from_drate(b2).0,
            spec_from_drate(b2).1,
        ),
{
    lemma_drate_encode_lex(b1, b2);
    let r1 = spec_from_drate(b1);
    let r2 = spec_from_drate(b2);
    lemma_drate_decode_monotone(r1.0, r1.1, r2.0, r2.1);
}

/// The deviation a request actually configures is monotone in the
/// requested deviation, across the exponent field's full range.
pub proof fn lemma_deviation_requested_monotone(d1: u64, d2: u64)
    requires
        d1 <= d2,
    ensures
        spec_to_deviation(spec_from_deviation(d1).0, spec_from_deviation(d1).1)
            <= spec_to_deviation(spec_from_deviation(d2).0, spec_from_deviation(d2).1),
{
    lemma_deviation_encode_lex(d1, d2);
    let r1 = spec_from_deviation(d1);
    let r2 = spec_from_deviation(d2);
    lemma_search_bounded((d1 * pow2(17)) as int, 15, 7, 0);
    lemma_search_bounded((d2 * pow2(17)) as int, 15, 7, 0);
    lemma_deviation_decode_monotone(r1.0, r1.1, r2.0, r2.1);
}

/// The bandwidth quotient shrinks as the requested bandwidth grows.
proof fn lemma_bw_quot_antitone(b1: u64, b2: u64, e: nat)
    requires
        0 < b1 <= b2,
    ensures
        bw_quot(b2, e) <= bw_quot(b1, e),
{
    lemma_pow2_pos(e);
    let p = pow2(e) as int;
    let d1 = 8 * (b1 as int) * p;
    let d2 = 8 * (b2 as int) * p;
    let h1 = 4 * (b1 as int) * p;
    let h2 = 4 * (b2 as int) * p;
    assert(d1 == 2 * h1 && d2 == 2 * h2 && 4 <= h1 <= h2) by (nonlinear_arith)
        requires
            0 < b1 <= b2,
            p >= 1,
            d1 == 8 * (b1 as int) * p,
            d2 == 8 * (b2 as int) * p,
            h1 == 4 * (b1 as int) * p,
            h2 == 4 * (b2 as int) * p,
    ;
    vstd::arithmetic::div_mod::lemma_mod_multiples_basic(h1, 2);
    vstd::arithmetic::div_mod::lemma_mod_multiples_basic(h2, 2);
    lemma_rdiv_antitone_in_divisor(FXOSC as int, d1, d2);
}

/// From `e0` on, the bandwidth search skips every exponent whose
/// quotient overflows the mantissa field.
proof fn lemma_bw_search_skip(bw: u64, e0: nat, e: nat)
    requires
        e0 <= e <= 3,
        forall|j: nat| e0 <= j < e ==> bw_quot(bw, j) > 7,
    ensures
        bw_search(bw, e0) == bw_search(bw, e),
    decreases e - e0,
{
    if e0 < e {
        lemma_bw_search_skip(bw, e0 + 1, e);
    }
}

/// The bandwidth search never leaves the exponent field's range.
proof fn lemma_bw_search_bounded(bw: u64, e0: nat)
    requires
        e0 <= 3,
    ensures
        e0 <= bw_search(bw, e0) <= 3,
    decreases 3 - e0,
{
    if e0 < 3 && bw_quot(bw, e0) > 7 {
        lemma_bw_search_bounded(bw, e0 + 1);
    }
}

/// A bandwidth search that stops short of the range end stops on a
/// fitting band.
proof fn lemma_bw_search_fits(bw: u64, e0: nat)
    requires
        e0 <= 3,
        bw_search(bw, e0) < 3,
    ensures
        bw_quot(bw, bw_search(bw, e0)) <= 7,
    decreases 3 - e0,
{
    if e0 < 3 && bw_quot(bw, e0) > 7 {
        lemma_bw_search_fits(bw, e0 + 1);
    }
}

/// The bandwidth search result is at most any fitting exponent.
proof fn lemma_bw_search_le_fitting(bw: u64, e0: nat, e: nat)
    requires
        e0 <= e <= 3,
        bw_quot(bw, e) <= 7,
    ensures
        bw_search(bw, e0) <= e,
    decreases e - e0,
{
    if e0 < e && bw_quot(bw, e0) > 7 {
        lemma_bw_search_le_fitting(bw, e0 + 1, e);
    }
}

/// Encoding is antitone: a wider bandwidth never encodes to a
/// lexicographically larger (exponent, mantissa) pair.
proof fn lemma_chanbw_encode_lex(b1: u64, b2: u64)
    requires
        0 < b1 <= b2,
    ensures
        ({
            let r1 = spec_from_chanbw(b1);
            let r2 = spec_from_chanbw(b2);
            r2.1 < r1.1 || (r2.1 == r1.1 && r2.0 <= r1.0)
        }),
{
    let e1 = bw_search(b1, 0);
    let e2 = bw_search(b2, 0);
    lemma_bw_search_bounded(b1, 0);
    lemma_bw_search_bounded(b2, 0);
    if e1 < 3 {
        lemma_bw_search_fits(b1, 0);
        lemma_bw_quot_antitone(b1, b2, e1);
        lemma_bw_search_le_fitting(b2, 0, e1);
    }
    if e1 == e2 {
        lemma_bw_quot_antitone(b1, b2, e1);
    }
}

/// The channel bandwidth a request actually configures is monotone in
/// the requested bandwidth, across the exponent field's full range.
pub proof fn lemma_chanbw_requested_monotone(b1: u64, b2: u64)
    requires
        0 < b1 <= b2,
    ensures
        spec_to_chanbw(spec_from_chanbw(b1).0, spec_from_chanbw(b1).1) <= spec_to_chanbw(
            spec_from_chanbw(b2).0,
            spec_from_chanbw(b2).1,
        ),
{
    lemma_chanbw_encode_lex(b1, b2);
    let r1 = spec_from_chanbw(b1);
    let r2 = spec_from_chanbw(b2);
    lemma_bw_search_bounded(b1, 0);
    lemma_bw_search_bounded(b2, 0);
    if r2.1 < r1.1 || (r2.1 == r1.1 && r2.0 <= r1.0) {
        lemma_chanbw_decode_antitone(r2.0, r2.1, r1.0, r1.1);
    }
}

/// Core of the mantissa/exponent round trip: a decoded value, scaled
/// back by the formula's power of two, lands in the very band it came
/// from — the rounded quotient at the original exponent recovers the
/// mantissa exactly, and every smaller exponent's band overflows.
proof fn lemma_me_idempotent_core(m: int, e: nat, base: int, s: nat, emax: nat)
    requires
        base >= 2,
        0 <= m < base,
        1 <= s,
        e <= emax,
        pow2(s) < (FXOSC as int) * pow2(e),
        m == 0 && e >= 1 ==> 2 * pow2(s) <= (FXOSC as int) * pow2(e),
    ensures
        ({
            let v = rdiv((base + m) * (FXOSC as int) * pow2(e), pow2(s) as int);
            let num = v * (pow2(s) as int);
            &&& search_of(num, 2 * base - 1, emax, 0) == e
            &&& m2_of(num, e) == base + m
            &&& v >= 0
        }),
{
    let c = FXOSC as int;
    let p = pow2(e) as int;
    let bigp = pow2(s) as int;
    lemma_pow2_pos(e);
    lemma_pow2_pos(s);
    lemma_pow2_adds((s - 1) as nat, 1);
    lemma2_to64();
    assert(bigp == 2 * pow2((s - 1) as nat));
    let d = c * p;
    assert(d == 2 * (13_500_000 * p)) by (nonlinear_arith)
        requires
            d == (27_000_000) * p,
    ;
    vstd::arithmetic::div_mod::lemma_mod_multiples_basic(13_500_000 * p, 2);
    vstd::arithmetic::div_mod::lemma_mod_multiples_basic(pow2((s - 1) as nat) as int, 2);
    let nn = (base + m) * c * p;
    assert(nn == (base + m) * d) by (nonlinear_arith)
        requires
            nn == (base + m) * c * p,
            d == c * p,
    ;
    assert(nn >= d) by (nonlinear_arith)
        requires
            nn == (base + m) * d,
            base + m >= 2,
            d > 0,
    ;
    let v = rdiv(nn, bigp);
    lemma_fundamental_div_mod(nn + bigp / 2, bigp);
    let rem = (nn + bigp / 2) % bigp;
    let delta = v * bigp - nn;
    assert(delta == bigp / 2 - rem);
    lemma_mod_bound(nn + bigp / 2, bigp);
    assert(-bigp / 2 < delta <= bigp / 2);
    lemma_div_pos_is_pos(nn + bigp / 2, bigp);
    let num = v * bigp;

    // At the original exponent the rounded quotient is the band value.
    assert(bigp / 2 < d / 2);
    assert(num + d / 2 == (base + m) * d + (delta + d / 2));
    assert(0 <= delta + d / 2 < d);
    lemma_fundamental_div_mod_converse(num + d / 2, d, base + m, delta + d / 2);
    assert(m2_of(num, e) == base + m);

    // Every smaller exponent's band overflows the mantissa field.
    if e >= 1 {
        lemma_pow2_adds((e - 1) as nat, 1);
        let dh = c * (pow2((e - 1) as nat) as int);
        assert(d == 2 * dh) by (nonlinear_arith)
            requires
                d == c * (pow2(e) as int),
                dh == c * (pow2((e - 1) as nat) as int),
                pow2(e) == 2 * pow2((e - 1) as nat),
        ;
        assert(dh == 2 * (13_500_000 * (pow2((e - 1) as nat) as int))) by (nonlinear_arith)
            requires
                dh == 27_000_000 * (pow2((e - 1) as nat) as int),
        ;
        vstd::arithmetic::div_mod::lemma_mod_multiples_basic(
            13_500_000 * (pow2((e - 1) as nat) as int),
            2,
        );
        assert(num + dh / 2 >= (2 * base) * dh) by {
            assert(num == (base + m) * (2 * dh) + delta);
            assert((base + m) * (2 * dh) == 2 * base * dh + 2 * m * dh) by (nonlinear_arith);
            if m == 0 {
                assert(bigp <= dh);
            } else {
                assert(2 * m * dh >= 2 * dh) by (nonlinear_arith)
                    requires
                        m >= 1,
                        dh > 0,
                ;
            }
        }
        lemma_div_is_ordered((2 * base) * dh, num + dh / 2, dh);
        vstd::arithmetic::div_mod::lemma_div_by_multiple(2 * base, dh);
        assert(m2_of(num, (e - 1) as nat) >= 2 * base);
        assert forall|j: nat| j < e implies m2_of(num, j) > 2 * base - 1 by {
            lemma_m2_antitone(num, j, (e - 1) as nat);
        }
    }
    lemma_search_skip(num, 2 * base - 1, emax, 0, e);
}

/// Data rate round trip: decoding a byte pair and encoding the result
/// returns the same byte pair, for every mantissa in exponent bands
/// four and up. The lowest bands sit under one Hertz of resolution,
/// where rounding to integer Hertz can shift the mantissa.
pub proof fn lemma_drate_idempotent(m: u8, e: u8)
    requires
        4 <= e <= 15,
    ensures
        spec_from_drate(spec_to_drate(m, e) as u64) == (m, e),
{
    lemma2_to64();
    if m == 0 && e == 4 {
        reveal_with_fuel(search_of, 6);
        assert((256 + m as int) * (FXOSC as int) * pow2(4) == 110592000000) by (nonlinear_arith)
            requires
                m == 0,
                pow2(4) == 16,
        ;
        lemma_fundamental_div_mod_converse(110726217728, 268435456, 412, 130809856);
        assert(spec_to_drate(0, 4) == 412);
        assert((412u64 as int) * pow2(28) == 110595407872);
        assert((FXOSC as int) * pow2(0) == 27000000);
        lemma_fundamental_div_mod_converse(110608907872, 27000000, 4096, 16907872);
        assert(m2_of(110595407872, 0) == 4096);
        assert((FXOSC as int) * pow2(1) == 54000000);
        lemma_fundamental_div_mod_converse(110622407872, 54000000, 2048, 30407872);
        assert(m2_of(110595407872, 1) == 2048);
        assert((FXOSC as int) * pow2(2) == 108000000);
        lemma_fundamental_div_mod_converse(110649407872, 108000000, 1024, 57407872);
        assert(m2_of(110595407872, 2) == 1024);
        assert((FXOSC as int) * pow2(3) == 216000000);
        lemma_fundamental_div_mod_converse(110703407872, 216000000, 512, 111407872);
        assert(m2_of(110595407872, 3) == 512);
        assert((FXOSC as int) * pow2(4) == 432000000);
        lemma_fundamental_div_mod_converse(110811407872, 432000000, 256, 219407872);
        assert(m2_of(110595407872, 4) == 256);
        assert(search_of(110595407872, 511, 15, 0) == 4);
        assert(spec_from_drate(412u64) == (0u8, 4u8));
        return;
    }

    lemma_pow2_pos(e as nat);
    if (e as nat) < 15 {
        lemma_pow2_strictly_increases(e as nat, 15);
    }
    assert(pow2(28) < (FXOSC as int) * pow2(e as nat)) by {
        assert((FXOSC as int) * pow2(e as nat) >= 27_000_000 * 16) by (nonlinear_arith)
            requires
                pow2(e as nat) >= 16,
        ;
        if (e as nat) > 4 {
            lemma_pow2_strictly_increases(4, e as nat);
        }
    }
    if m == 0 {
        assert(2 * pow2(28) <= (FXOSC as int) * pow2(e as nat)) by {
            assert(pow2(e as nat) >= 32);
            assert((FXOSC as int) * pow2(e as nat) >= 27_000_000 * 32) by (nonlinear_arith)
                requires
                    pow2(e as nat) >= 32,
            ;
            if (e as nat) > 5 {
                lemma_pow2_strictly_increases(5, e as nat);
            }
        }
    }
    lemma_me_idempotent_core(m as int, e as nat, 256, 28, 15);
    let v = rdiv((256 + m) * (FXOSC as int) * pow2(e as nat), pow2(28) as int);
    assert(v <= (256 + m) * (FXOSC as int) * pow2(e as nat) + pow2(28) as int) by {
        lemma_div_is_ordered(
            (256 + m) * (FXOSC as int) * pow2(e as nat) + (pow2(28) as int) / 2,
            ((256 + m) * (FXOSC as int) * pow2(e as nat) + pow2(28)) * (pow2(28) as int),
            pow2(28) as int,
        );
        vstd::arithmetic::div_mod::lemma_div_by_multiple(
            (256 + m) * (FXOSC as int) * pow2(e as nat) + pow2(28) as int,
            pow2(28) as int,
        );
        assert(((256 + m) * (FXOSC as int) * pow2(e as nat) + (pow2(28) as int)) * (pow2(
            28,
        ) as int) >= (256 + m) * (FXOSC as int) * pow2(e as nat) + (pow2(28) as int) / 2)
            by (nonlinear_arith)
            requires
                (256 + m) * (FXOSC as int) * pow2(e as nat) >= 0,
                pow2(28) as int >= 2,
        ;
    }
    assert(v * pow2(28) == (spec_to_drate(m, e) as u64) * pow2(28)) by {
        assert(0 <= v <= 0xFFFF_FFFF_FFFF) by {
            assert((256 + m) * (FXOSC as int) * pow2(e as nat) <= 511 * 27_000_000 * 32768)
                by (nonlinear_arith)
                requires
                    256 + m <= 511,
                    0 <= pow2(e as nat) <= 32768,
            ;
        }
    }
}

/// Deviation round trip: decoding a byte pair and encoding the result
/// returns the same byte pair, across both fields' full ranges.
pub proof fn lemma_deviation_idempotent(m: u8, e: u8)
    requires
        m <= 7,
        e <= 7,
    ensures
        spec_from_deviation(spec_to_deviation(m, e) as u64) == (m, e),
{
    lemma2_to64();
    lemma_pow2_pos(e as nat);
    assert(2 * pow2(17) <= (FXOSC as int) * pow2(e as nat)) by (nonlinear_arith)
        requires
            pow2(e as nat) >= 1,
            pow2(17) == 0x20000,
    ;
    lemma_me_idempotent_core(m as int, e as nat, 8, 17, 7);
    let v = rdiv((8 + m) * (FXOSC as int) * pow2(e as nat), pow2(17) as int);
    assert(v * pow2(17) == (spec_to_deviation(m, e) as u64) * pow2(17)) by {
        assert(0 <= v <= 0xFFFF_FFFF_FFFF) by {
            if (e as nat) < 7 {
                lemma_pow2_strictly_increases(e as nat, 7);
            }
            assert((8 + m) * (FXOSC as int) * pow2(e as nat) <= 15 * 27_000_000 * 128)
                by (nonlinear_arith)
                requires
                    8 + m <= 15,
                    0 <= pow2(e as nat) <= 128,
            ;
            lemma_div_is_ordered(
                (8 + m) * (FXOSC as int) * pow2(e as nat) + (pow2(17) as int) / 2,
                15 * 27_000_000 * 128 + pow2(17) as int,
                pow2(17) as int,
            );
        }
    }
}

/// Channel bandwidth round trip: decoding a byte pair and encoding
/// the result returns the same byte pair, across both fields' full
/// ranges. The bands are few enough to check one by one.
pub proof fn lemma_chanbw_idempotent(m: u8, e: u8)
    requires
        m <= 3,
        e <= 3,
    ensures
        spec_from_chanbw(spec_to_chanbw(m, e) as u64) == (m, e),
{
    reveal_with_fuel(bw_search, 5);
    lemma2_to64();
    if m == 0 && e == 0 {
        assert(8 * (4 + m as int) * pow2(0) == 32);
        lemma_fundamental_div_mod_converse(27000016, 32, 843750, 16);
        assert(spec_to_chanbw(0, 0) == 843750);
        assert(8 * (843750 as u64 as int) * pow2(0) == 6750000);
        lemma_fundamental_div_mod_converse(30375000, 6750000, 4, 3375000);
        assert(bw_quot(843750u64, 0) == 4);
        assert(spec_from_chanbw(843750u64) == (0u8, 0u8));
    }
    if m == 1 && e == 0 {
        assert(8 * (4 + m as int) * pow2(0) == 40);
        lemma_fundamental_div_mod_converse(27000020, 40, 675000, 20);
        assert(spec_to_chanbw(1, 0) == 675000);
        assert(8 * (675000 as u64 as int) * pow2(0) == 5400000);
        lemma_fundamental_div_mod_converse(29700000, 5400000, 5, 2700000);
        assert(bw_quot(675000u64, 0) == 5);
        assert(spec_from_chanbw(675000u64) == (1u8, 0u8));
    }
    if m == 2 && e == 0 {
        assert(8 * (4 + m as int) * pow2(0) == 48);
        lemma_fundamental_div_mod_converse(27000024, 48, 562500, 24);
        assert(spec_to_chanbw(2, 0) == 562500);
        assert(8 * (562500 as u64 as int) * pow2(0) == 4500000);
        lemma_fundamental_div_mod_converse(29250000, 4500000, 6, 2250000);
        assert(bw_quot(562500u64, 0) == 6);
        assert(spec_from_chanbw(562500u64) == (2u8, 0u8));
    }
    if m == 3 && e == 0 {
        assert(8 * (4 + m as int) * pow2(0) == 56);
        lemma_fundamental_div_mod_converse(27000028, 56, 482143, 20);
        assert(spec_to_chanbw(3, 0) == 482143);
        assert(8 * (482143 as u64 as int) * pow2(0) == 3857144);
        lemma_fundamental_div_mod_converse(28928572, 3857144, 7, 1928564);
        assert(bw_quot(482143u64, 0) == 7);
        assert(spec_from_chanbw(482143u64) == (3u8, 0u8));
    }
    if m == 0 && e == 1 {
        assert(8 * (4 + m as int) * pow2(1) == 64);
        lemma_fundamental_div_mod_converse(27000032, 64, 421875, 32);
        assert(spec_to_chanbw(0, 1) == 421875);
        assert(8 * (421875 as u64 as int) * pow2(0) == 3375000);
        lemma_fundamental_div_mod_converse(28687500, 3375000, 8, 1687500);
        assert(bw_quot(421875u64, 0) == 8);
        assert(8 * (421875 as u64 as int) * pow2(1) == 6750000);
        lemma_fundamental_div_mod_converse(30375000, 6750000, 4, 3375000);
        assert(bw_quot(421875u64, 1) == 4);
        assert(spec_from_chanbw(421875u64) == (0u8, 1u8));
    }
    if m == 1 && e == 1 {
        assert(8 * (4 + m as int) * pow2(1) == 80);
        lemma_fundamental_div_mod_converse(27000040, 80, 337500, 40);
        assert(spec_to_chanbw(1, 1) == 337500);
        assert(8 * (337500 as u64 as int) * pow2(0) == 2700000);
        lemma_fundamental_div_mod_converse(28350000, 2700000, 10, 1350000);
        assert(bw_quot(337500u64, 0) == 10);
        assert(8 * (337500 as u64 as int) * pow2(1) == 5400000);
        lemma_fundamental_div_mod_converse(29700000, 5400000, 5, 2700000);
        assert(bw_quot(337500u64, 1) == 5);
        assert(spec_from_chanbw(337500u64) == (1u8, 1u8));
    }
    if m == 2 && e == 1 {
        assert(8 * (4 + m as int) * pow2(1) == 96);
        lemma_fundamental_div_mod_converse(27000048, 96, 281250, 48);
        assert(spec_to_chanbw(2, 1) == 281250);
        assert(8 * (281250 as u64 as int) * pow2(0) == 2250000);
        lemma_fundamental_div_mod_converse(28125000, 2250000, 12, 1125000);
        assert(bw_quot(281250u64, 0) == 12);
        assert(8 * (281250 as u64 as int) * pow2(1) == 4500000);
        lemma_fundamental_div_mod_converse(29250000, 4500000, 6, 2250000);
        assert(bw_quot(281250u64, 1) == 6);
        assert(spec_from_chanbw(281250u64) == (2u8, 1u8));
    }
    if m == 3 && e == 1 {
        assert(8 * (4 + m as int) * pow2(1) == 112);
        lemma_fundamental_div_mod_converse(27000056, 112, 241071, 104);
        assert(spec_to_chanbw(3, 1) == 241071);
        assert(8 * (241071 as u64 as int) * pow2(0) == 1928568);
        lemma_fundamental_div_mod_converse(27964284, 1928568, 14, 964332);
        assert(bw_quot(241071u64, 0) == 14);
        assert(8 * (241071 as u64 as int) * pow2(1) == 3857136);
        lemma_fundamental_div_mod_converse(28928568, 3857136, 7, 1928616);
        assert(bw_quot(241071u64, 1) == 7);
        assert(spec_from_chanbw(241071u64) == (3u8, 1u8));
    }
    if m == 0 && e == 2 {
        assert(8 * (4 + m as int) * pow2(2) == 128);
        lemma_fundamental_div_mod_converse(27000064, 128, 210938, 0);
        assert(spec_to_chanbw(0, 2) == 210938);
        assert(8 * (210938 as u64 as int) * pow2(0) == 1687504);
        lemma_fundamental_div_mod_converse(27843752, 1687504, 16, 843688);
        assert(bw_quot(210938u64, 0) == 16);
        assert(8 * (210938 as u64 as int) * pow2(1) == 3375008);
        lemma_fundamental_div_mod_converse(28687504, 3375008, 8, 1687440);
        assert(bw_quot(210938u64, 1) == 8);
        assert(8 * (210938 as u64 as int) * pow2(2) == 6750016);
        lemma_fundamental_div_mod_converse(30375008, 6750016, 4, 3374944);
        assert(bw_quot(210938u64, 2) == 4);
        assert(spec_from_chanbw(210938u64) == (0u8, 2u8));
    }
    if m == 1 && e == 2 {
        assert(8 * (4 + m as int) * pow2(2) == 160);
        lemma_fundamental_div_mod_converse(27000080, 160, 168750, 80);
        assert(spec_to_chanbw(1, 2) == 168750);
        assert(8 * (168750 as u64 as int) * pow2(0) == 1350000);
        lemma_fundamental_div_mod_converse(27675000, 1350000, 20, 675000);
        assert(bw_quot(168750u64, 0) == 20);
        assert(8 * (168750 as u64 as int) * pow2(1) == 2700000);
        lemma_fundamental_div_mod_converse(28350000, 2700000, 10, 1350000);
        assert(bw_quot(168750u64, 1) == 10);
        assert(8 * (168750 as u64 as int) * pow2(2) == 5400000);
        lemma_fundamental_div_mod_converse(29700000, 5400000, 5, 2700000);
        assert(bw_quot(168750u64, 2) == 5);
        assert(spec_from_chanbw(168750u64) == (1u8, 2u8));
    }
    if m == 2 && e == 2 {
        assert(8 * (4 + m as int) * pow2(2) == 192);
        lemma_fundamental_div_mod_converse(27000096, 192, 140625, 96);
        assert(spec_to_chanbw(2, 2) == 140625);
        assert(8 * (140625 as u64 as int) * pow2(0) == 1125000);
        lemma_fundamental_div_mod_converse(27562500, 1125000, 24, 562500);
        assert(bw_quot(140625u64, 0) == 24);
        assert(8 * (140625 as u64 as int) * pow2(1) == 2250000);
        lemma_fundamental_div_mod_converse(28125000, 2250000, 12, 1125000);
        assert(bw_quot(140625u64, 1) == 12);
        assert(8 * (140625 as u64 as int) * pow2(2) == 4500000);
        lemma_fundamental_div_mod_converse(29250000, 4500000, 6, 2250000);
        assert(bw_quot(140625u64, 2) == 6);
        assert(spec_from_chanbw(140625u64) == (2u8, 2u8));
    }
    if m == 3 && e == 2 {
        assert(8 * (4 + m as int) * pow2(2) == 224);
        lemma_fundamental_div_mod_converse(27000112, 224, 120536, 48);
        assert(spec_to_chanbw(3, 2) == 120536);
        assert(8 * (120536 as u64 as int) * pow2(0) == 964288);
        lemma_fundamental_div_mod_converse(27482144, 964288, 28, 482080);
        assert(bw_quot(120536u64, 0) == 28);
        assert(8 * (120536 as u64 as int) * pow2(1) == 1928576);
        lemma_fundamental_div_mod_converse(27964288, 1928576, 14, 964224);
        assert(bw_quot(120536u64, 1) == 14);
        assert(8 * (120536 as u64 as int) * pow2(2) == 3857152);
        lemma_fundamental_div_mod_converse(28928576, 3857152, 7, 1928512);
        assert(bw_quot(120536u64, 2) == 7);
        assert(spec_from_chanbw(120536u64) == (3u8, 2u8));
    }
    if m == 0 && e == 3 {
        assert(8 * (4 + m as int) * pow2(3) == 256);
        lemma_fundamental_div_mod_converse(27000128, 256, 105469, 64);
        assert(spec_to_chanbw(0, 3) == 105469);
        assert(8 * (105469 as u64 as int) * pow2(0) == 843752);
        lemma_fundamental_div_mod_converse(27421876, 843752, 32, 421812);
        assert(bw_quot(105469u64, 0) == 32);
        assert(8 * (105469 as u64 as int) * pow2(1) == 1687504);
        lemma_fundamental_div_mod_converse(27843752, 1687504, 16, 843688);
        assert(bw_quot(105469u64, 1) == 16);
        assert(8 * (105469 as u64 as int) * pow2(2) == 3375008);
        lemma_fundamental_div_mod_converse(28687504, 3375008, 8, 1687440);
        assert(bw_quot(105469u64, 2) == 8);
        assert(8 * (105469 as u64 as int) * pow2(3) == 6750016);
        lemma_fundamental_div_mod_converse(30375008, 6750016, 4, 3374944);
        assert(bw_quot(105469u64, 3) == 4);
        assert(spec_from_chanbw(105469u64) == (0u8, 3u8));
    }
    if m == 1 && e == 3 {
        assert(8 * (4 + m as int) * pow2(3) == 320);
        lemma_fundamental_div_mod_converse(27000160, 320, 84375, 160);
        assert(spec_to_chanbw(1, 3) == 84375);
        assert(8 * (84375 as u64 as int) * pow2(0) == 675000);
        lemma_fundamental_div_mod_converse(27337500, 675000, 40, 337500);
        assert(bw_quot(84375u64, 0) == 40);
        assert(8 * (84375 as u64 as int) * pow2(1) == 1350000);
        lemma_fundamental_div_mod_converse(27675000, 1350000, 20, 675000);
        assert(bw_quot(84375u64, 1) == 20);
        assert(8 * (84375 as u64 as int) * pow2(2) == 2700000);
        lemma_fundamental_div_mod_converse(28350000, 2700000, 10, 1350000);
        assert(bw_quot(84375u64, 2) == 10);
        assert(8 * (84375 as u64 as int) * pow2(3) == 5400000);
        lemma_fundamental_div_mod_converse(29700000, 5400000, 5, 2700000);
        assert(bw_quot(84375u64, 3) == 5);
        assert(spec_from_chanbw(84375u64) == (1u8, 3u8));
    }
    if m == 2 && e == 3 {
        assert(8 * (4 + m as int) * pow2(3) == 384);
        lemma_fundamental_div_mod_converse(27000192, 384, 70313, 0);
        assert(spec_to_chanbw(2, 3) == 70313);
        assert(8 * (70313 as u64 as int) * pow2(0) == 562504);
        lemma_fundamental_div_mod_converse(27281252, 562504, 48, 281060);
        assert(bw_quot(70313u64, 0) == 48);
        assert(8 * (70313 as u64 as int) * pow2(1) == 1125008);
        lemma_fundamental_div_mod_converse(27562504, 1125008, 24, 562312);
        assert(bw_quot(70313u64, 1) == 24);
        assert(8 * (70313 as u64 as int) * pow2(2) == 2250016);
        lemma_fundamental_div_mod_converse(28125008, 2250016, 12, 1124816);
        assert(bw_quot(70313u64, 2) == 12);
        assert(8 * (70313 as u64 as int) * pow2(3) == 4500032);
        lemma_fundamental_div_mod_converse(29250016, 4500032, 6, 2249824);
        assert(bw_quot(70313u64, 3) == 6);
        assert(spec_from_chanbw(70313u64) == (2u8, 3u8));
    }
    if m == 3 && e == 3 {
        assert(8 * (4 + m as int) * pow2(3) == 448);
        lemma_fundamental_div_mod_converse(27000224, 448, 60268, 160);
        assert(spec_to_chanbw(3, 3) == 60268);
        assert(8 * (60268 as u64 as int) * pow2(0) == 482144);
        lemma_fundamental_div_mod_converse(27241072, 482144, 56, 241008);
        assert(bw_quot(60268u64, 0) == 56);
        assert(8 * (60268 as u64 as int) * pow2(1) == 964288);
        lemma_fundamental_div_mod_converse(27482144, 964288, 28, 482080);
        assert(bw_quot(60268u64, 1) == 28);
        assert(8 * (60268 as u64 as int) * pow2(2) == 1928576);
        lemma_fundamental_div_mod_converse(27964288, 1928576, 14, 964224);
        assert(bw_quot(60268u64, 2) == 14);
        assert(8 * (60268 as u64 as int) * pow2(3) == 3857152);
        lemma_fundamental_div_mod_converse(28928576, 3857152, 7, 1928512);
        assert(bw_quot(60268u64, 3) == 7);
        assert(spec_from_chanbw(60268u64) == (3u8, 3u8));
    }
}

} // verus!
