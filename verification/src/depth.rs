//! The MS5837 pressure sensor: the CRC of its calibration memory, the
//! assembly of its register values, and the temperature compensation of its
//! readings.

use vstd::prelude::*;

verus! {

/// One step of the CRC-4 remainder: shift left, folding in the polynomial when
/// the top bit falls out.
pub open spec fn crc_step(rem: u16) -> u16 {
    if rem & 0x8000u16 != 0 {
        (rem << 1u16) ^ 0x3000u16
    } else {
        rem << 1u16
    }
}

/// `n` steps of the remainder.
pub open spec fn crc_steps(rem: u16, n: nat) -> u16
    decreases n,
{
    if n == 0 {
        rem
    } else {
        crc_steps(crc_step(rem), (n - 1) as nat)
    }
}

/// Byte `i` of the calibration words, high byte first.
pub open spec fn prom_byte(words: Seq<u16>, i: int) -> u16 {
    if i % 2 == 1 {
        words[i / 2] & 0x00FFu16
    } else {
        words[i / 2] >> 8u16
    }
}

/// The remainder after the first `i` bytes of the calibration words.
pub open spec fn crc_remainder(words: Seq<u16>, i: nat) -> u16
    decreases i,
{
    if i == 0 {
        0
    } else {
        crc_steps(crc_remainder(words, (i - 1) as nat) ^ prom_byte(words, i - 1), 8)
    }
}

/// The calibration words as the CRC covers them: the stored CRC bits of the
/// first word and the last word cleared.
pub open spec fn crc_input(words: Seq<u16>) -> Seq<u16> {
    words.update(0, words[0] & 0x0FFFu16).update(7, 0u16)
}

/// The CRC-4 of the calibration words.
pub open spec fn crc4_of(words: Seq<u16>) -> u8 {
    (crc_remainder(crc_input(words), 16) >> 12u16) as u8
}

/// Computes the CRC-4 of the eight calibration words of the sensor, as its
/// datasheet defines it; clears the CRC bits of the first word and the last
/// word on the way.
pub fn crc4(n_prom: &mut [u16]) -> (r: u8)
    requires
        old(n_prom)@.len() >= 8,
    ensures
        final(n_prom)@ == crc_input(old(n_prom)@),
        r == crc4_of(old(n_prom)@),
        r < 16,
{
    let mut n_rem: u16 = 0;
    let first = n_prom[0] & 0x0FFF;
    n_prom[0] = first;
    n_prom[7] = 0;
    assert(n_prom@ =~= crc_input(old(n_prom)@));
    let mut i: usize = 0;
    while i < 16
        invariant
            n_prom@ == crc_input(old(n_prom)@),
            n_prom@.len() >= 8,
            i <= 16,
            n_rem == crc_remainder(n_prom@, i as nat),
        decreases 16 - i,
    {
        assert(i >> 1 == i / 2) by (bit_vector);
        if i % 2 == 1 {
            n_rem = n_rem ^ (n_prom[i >> 1] & 0x00FF);
        } else {
            n_rem = n_rem ^ (n_prom[i >> 1] >> 8);
        }
        let ghost start = n_rem;
        let mut n_bit: usize = 8;
        while n_bit > 0
            invariant
                n_bit <= 8,
                crc_steps(start, 8) == crc_steps(n_rem, n_bit as nat),
            decreases n_bit,
        {
            if n_rem & 0x8000 != 0 {
                n_rem = n_rem << 1 ^ 0x3000;
            } else {
                n_rem = n_rem << 1;
            }
            n_bit = n_bit - 1;
        }
        i = i + 1;
    }
    let r = (n_rem >> 12) as u8;
    assert(n_rem >> 12u16 < 16) by (bit_vector);
    r
}

/// One step of the remainder distributes over exclusive or.
proof fn lemma_step_xor(x: u16, y: u16)
    ensures
        crc_step(x ^ y) == crc_step(x) ^ crc_step(y),
{
    assert(((x ^ y) & 0x8000u16 != 0) == ((x & 0x8000u16 != 0) != (y & 0x8000u16 != 0))) by (bit_vector);
    assert((x ^ y) << 1u16 == (x << 1u16) ^ (y << 1u16)) by (bit_vector);
    assert(forall|p: u16, q: u16| #![auto] (p ^ q) ^ 0x3000u16 == (p ^ 0x3000u16) ^ q) by (bit_vector);
    assert(forall|p: u16, q: u16| #![auto] (p ^ q) ^ 0x3000u16 == p ^ (q ^ 0x3000u16)) by (bit_vector);
    assert(forall|p: u16, q: u16| #![auto] p ^ q == (p ^ 0x3000u16) ^ (q ^ 0x3000u16)) by (bit_vector);
}

/// Any number of steps distributes over exclusive or.
proof fn lemma_steps_xor(x: u16, y: u16, n: nat)
    ensures
        crc_steps(x ^ y, n) == crc_steps(x, n) ^ crc_steps(y, n),
    decreases n,
{
    if n > 0 {
        lemma_step_xor(x, y);
        lemma_steps_xor(crc_step(x), crc_step(y), (n - 1) as nat);
    }
}

/// The remainder after `i` bytes of words that are the exclusive or of two
/// others is the exclusive or of their remainders.
proof fn lemma_remainder_xor(a: Seq<u16>, b: Seq<u16>, c: Seq<u16>, i: nat)
    requires
        i <= 16,
        a.len() == 8,
        b.len() == 8,
        c.len() == 8,
        forall|j: int| 0 <= j < 8 ==> #[trigger] c[j] == a[j] ^ b[j],
    ensures
        crc_remainder(c, i) == crc_remainder(a, i) ^ crc_remainder(b, i),
    decreases i,
{
    if i == 0 {
        assert(0u16 ^ 0u16 == 0u16) by (bit_vector);
    } else {
        let k = i - 1;
        lemma_remainder_xor(a, b, c, k as nat);
        let (ra, rb) = (crc_remainder(a, k as nat), crc_remainder(b, k as nat));
        let (wa, wb, wc) = (a[k / 2], b[k / 2], c[k / 2]);
        assert(wc == wa ^ wb);
        assert(((wa ^ wb) & 0x00FFu16) == (wa & 0x00FFu16) ^ (wb & 0x00FFu16)) by (bit_vector);
        assert(((wa ^ wb) >> 8u16) == (wa >> 8u16) ^ (wb >> 8u16)) by (bit_vector);
        let (ba, bb) = (prom_byte(a, k), prom_byte(b, k));
        assert(prom_byte(c, k) == ba ^ bb);
        assert((ra ^ rb) ^ (ba ^ bb) == (ra ^ ba) ^ (rb ^ bb)) by (bit_vector);
        lemma_steps_xor(ra ^ ba, rb ^ bb, 8);
    }
}

/// CRC law: the CRC-4 is linear over exclusive or; the CRC of the word-wise
/// exclusive or of two sets of calibration words is the exclusive or of their
/// CRCs.
pub proof fn lemma_crc4_xor(a: Seq<u16>, b: Seq<u16>, c: Seq<u16>)
    requires
        a.len() == 8,
        b.len() == 8,
        c.len() == 8,
        forall|j: int| 0 <= j < 8 ==> #[trigger] c[j] == a[j] ^ b[j],
    ensures
        crc4_of(c) == crc4_of(a) ^ crc4_of(b),
{
    let (ia, ib, ic) = (crc_input(a), crc_input(b), crc_input(c));
    let (a0, b0) = (a[0], b[0]);
    assert(((a0 ^ b0) & 0x0FFFu16) == (a0 & 0x0FFFu16) ^ (b0 & 0x0FFFu16)) by (bit_vector);
    assert(0u16 ^ 0u16 == 0u16) by (bit_vector);
    assert forall|j: int| 0 <= j < 8 implies #[trigger] ic[j] == ia[j] ^ ib[j] by {
        if j == 0 {
        } else if j == 7 {
        } else {
            assert(c[j] == a[j] ^ b[j]);
        }
    }
    lemma_remainder_xor(ia, ib, ic, 16);
    let (x, y) = (crc_remainder(ia, 16), crc_remainder(ib, 16));
    assert(((x ^ y) >> 12u16) as u8 == ((x >> 12u16) as u8) ^ ((y >> 12u16) as u8)) by (bit_vector);
}

/// The outcome of checking the calibration memory.
#[derive(Debug, Clone, Copy, PartialEq, Eq)]
pub enum Calibration {
    /// The CRC matches and the sensor is a supported version.
    Valid(u16),
    /// The CRC does not match: the memory must be read again.
    BadCrc,
    /// The CRC matches but the sensor version is not supported.
    UnsupportedVersion(u16),
}

/// The version of the sensor (02BA01, 02BA21) that the first calibration word
/// names.
pub open spec fn version_of(word: u16) -> u16 {
    (word >> 5u16) & 0x7Fu16
}

/// Checks the calibration words read from the sensor: the CRC stored in the
/// top bits of the first word against the one computed, then the version.
pub fn check_calibration(calibration: &mut [u16]) -> (r: Calibration)
    requires
        old(calibration)@.len() >= 8,
    ensures
        final(calibration)@ == crc_input(old(calibration)@),
        (old(calibration)@[0] >> 12u16) as u8 != crc4_of(old(calibration)@) ==> r == Calibration::BadCrc,
        (old(calibration)@[0] >> 12u16) as u8 == crc4_of(old(calibration)@) ==> {
            let version = version_of(old(calibration)@[0]);
            if version == 0x00 || version == 0x15 {
                r == Calibration::Valid(version)
            } else {
                r == Calibration::UnsupportedVersion(version)
            }
        },
{
    let first = calibration[0];
    let crc_read = (first >> 12) as u8;
    let crc_calculated = crc4(calibration);
    if crc_read == crc_calculated {
        let version = calibration[0] >> 5 & 0x7F;
        assert((first & 0x0FFFu16) >> 5u16 & 0x7Fu16 == (first >> 5u16) & 0x7Fu16) by (bit_vector);
        if version == 0x00 || version == 0x15 {
            Calibration::Valid(version)
        } else {
            Calibration::UnsupportedVersion(version)
        }
    } else {
        Calibration::BadCrc
    }
}

/// The calibration word stored in two bytes, high byte first.
pub fn calibration_word(hi: u8, lo: u8) -> (r: u16)
    ensures
        r == hi as int * 256 + lo as int,
{
    hi as u16 * 256 + lo as u16
}

/// The 24-bit conversion result stored in three bytes, high byte first.
pub fn adc_value(b0: u8, b1: u8, b2: u8) -> (r: u32)
    ensures
        r == b0 as int * 65536 + b1 as int * 256 + b2 as int,
{
    b0 as u32 * 65536 + b1 as u32 * 256 + b2 as u32
}

/// Division rounding toward zero, as integer division does.
pub open spec fn tdiv(a: int, b: int) -> int {
    if a >= 0 { a / b } else { -((-a) / b) }
}

/// Integer division rounding toward zero by a positive divisor.
fn div_toward_zero(a: i64, b: i64) -> (r: i64)
    requires
        b > 0,
        a > i64::MIN,
    ensures
        r == tdiv(a as int, b as int),
{
    if a >= 0 {
        a / b
    } else {
        let q = (-a) / b;
        -q
    }
}

/// The temperature-compensated reading of the sensor from its calibration
/// words `c` and the two raw conversions: the pressure in pascals and the
/// temperature in hundredths of a degree Celsius, with the second-order
/// correction below 20 degrees.
pub open spec fn compensate_spec(c: Seq<u16>, d1: int, d2: int) -> (int, int) {
    let dt = d2 - c[5] * 256;
    let sens = c[1] * 65536 + tdiv(c[3] * dt, 128);
    let off = c[2] * 131072 + tdiv(c[4] * dt, 64);
    let temp = 2000 + tdiv(dt * c[6], 8388608);
    let low = tdiv(temp, 100) < 20;
    let ti = if low { tdiv(11 * dt * dt, 34359738368) } else { 0 };
    let offi = if low { tdiv(31 * (temp - 2000) * (temp - 2000), 8) } else { 0 };
    let sensi = if low { tdiv(63 * (temp - 2000) * (temp - 2000), 32) } else { 0 };
    let off2 = off - offi;
    let sens2 = sens - sensi;
    (tdiv(tdiv(d1 * sens2, 2097152) - off2, 32768), temp - ti)
}

proof fn lemma_tdiv_bound(a: int, b: int, m: int)
    requires
        b > 0,
        -m <= a <= m,
    ensures
        -(m / b) <= tdiv(a, b) <= m / b,
{
    if a >= 0 {
        assert(a / b <= m / b) by (nonlinear_arith) requires 0 <= a <= m, b > 0;
        assert(a / b >= 0) by (nonlinear_arith) requires a >= 0, b > 0;
    } else {
        assert((-a) / b <= m / b) by (nonlinear_arith) requires 0 < -a <= m, b > 0;
        assert((-a) / b >= 0) by (nonlinear_arith) requires -a > 0, b > 0;
    }
}

/// The temperature-compensated reading from the calibration words and the
/// raw pressure (`d1`) and temperature (`d2`) conversions: the pressure in
/// pascals and the temperature in hundredths of a degree Celsius.
#[verifier::rlimit(60)]
pub fn compensate(c: &[u16], d1: u32, d2: u32) -> (r: (i64, i64))
    requires
        c@.len() >= 8,
        d1 < 0x1000000,
        d2 < 0x1000000,
    ensures
        (r.0 as int, r.1 as int) == compensate_spec(c@, d1 as int, d2 as int),
{
    let c1 = c[1] as i64;
    let c2 = c[2] as i64;
    let c3 = c[3] as i64;
    let c4 = c[4] as i64;
    let c5 = c[5] as i64;
    let c6 = c[6] as i64;
    let dt: i64 = d2 as i64 - c5 * 256;
    assert(-0x1000000int <= dt <= 0x1000000int);
    assert(-0x10000000000int <= c3 * dt <= 0x10000000000int) by (nonlinear_arith)
        requires 0 <= c3 <= 0xFFFFint, -0x1000000int <= dt <= 0x1000000int;
    assert(-0x10000000000int <= c4 * dt <= 0x10000000000int) by (nonlinear_arith)
        requires 0 <= c4 <= 0xFFFFint, -0x1000000int <= dt <= 0x1000000int;
    assert(-0x10000000000int <= dt * c6 <= 0x10000000000int) by (nonlinear_arith)
        requires 0 <= c6 <= 0xFFFFint, -0x1000000int <= dt <= 0x1000000int;
    assert(0 <= 11 * dt * dt <= 11 * 0x1000000000000int) by (nonlinear_arith)
        requires -0x1000000int <= dt <= 0x1000000int;
    proof {
        lemma_tdiv_bound(c3 * dt, 128, 0x10000000000int);
        lemma_tdiv_bound(c4 * dt, 64, 0x10000000000int);
        lemma_tdiv_bound(dt * c6, 8388608, 0x10000000000int);
        lemma_tdiv_bound(11 * dt * dt, 34359738368, 11 * 0x1000000000000int);
    }
    let sens: i64 = c1 * 65536 + div_toward_zero(c3 * dt, 128);
    let off: i64 = c2 * 131072 + div_toward_zero(c4 * dt, 64);
    let temp: i64 = 2000 + div_toward_zero(dt * c6, 8388608);
    let e: i64 = temp - 2000;
    assert(-0x20000int <= e <= 0x20000int);
    assert(0 <= 63 * e * e <= 63 * 0x400000000int) by (nonlinear_arith)
        requires -0x20000int <= e <= 0x20000int;
    assert(0 <= 31 * e * e <= 31 * 0x400000000int) by (nonlinear_arith)
        requires -0x20000int <= e <= 0x20000int;
    proof {
        lemma_tdiv_bound(63 * e * e, 32, 63 * 0x400000000int);
        lemma_tdiv_bound(31 * e * e, 8, 31 * 0x400000000int);
    }
    let mut ti: i64 = 0;
    let mut offi: i64 = 0;
    let mut sensi: i64 = 0;
    let low = div_toward_zero(temp, 100) < 20;
    if low {
        ti = div_toward_zero(11 * dt * dt, 34359738368);
        offi = div_toward_zero(31 * e * e, 8);
        sensi = div_toward_zero(63 * e * e, 32);
    }
    let off2: i64 = off - offi;
    let sens2: i64 = sens - sensi;
    assert(-0x2000000000int <= sens2 <= 0x2000000000int);
    assert(-0x2000000000000000int <= d1 as i64 * sens2 <= 0x2000000000000000int) by (nonlinear_arith)
        requires 0 <= d1 < 0x1000000int, -0x2000000000int <= sens2 <= 0x2000000000int;
    proof {
        lemma_tdiv_bound(d1 as i64 * sens2, 2097152, 0x2000000000000000int);
    }
    let scaled = div_toward_zero(d1 as i64 * sens2, 2097152);
    let pressure = div_toward_zero(scaled - off2, 32768);
    (pressure, temp - ti)
}

} // verus!
