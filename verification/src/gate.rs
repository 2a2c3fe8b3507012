//! The speech gate: a cheap test on canonical samples that keeps silence and steady
//! noise away from the inference engine.
//!
//! Every threshold is an amplitude between 0 and 1. A sample `v` stands for
//! `v / 32768`, so each comparison is restated over integers and decided exactly.

use crate::audio::AudioBuffer;
use vstd::math::{max, min};
use vstd::prelude::*;

verus! {

/// Shortest buffer that can hold speech: half a second.
pub const MIN_SPEECH_SAMPLES: usize = 8_000;

/// Number of equal segments whose levels are compared.
pub const SEGMENTS: usize = 10;

/// Number of neighbouring segment pairs that must differ in level.
pub const MIN_VARIED_PAIRS: usize = 3;

/// Sum of the squares of the samples.
pub open spec fn energy(s: Seq<i16>) -> int
    decreases s.len(),
{
    if s.len() == 0 {
        0
    } else {
        energy(s.drop_last()) + s.last() * s.last()
    }
}

/// Distance of a sample from zero.
pub open spec fn magnitude(v: i16) -> int {
    if v < 0 {
        -v
    } else {
        v as int
    }
}

/// Largest magnitude among the samples; 0 for no samples.
pub open spec fn peak(s: Seq<i16>) -> int
    decreases s.len(),
{
    if s.len() == 0 {
        0
    } else {
        max(peak(s.drop_last()), magnitude(s.last()))
    }
}

/// The root mean square of the amplitudes exceeds 0.02.
///
/// With `n` samples this reads `sqrt(energy / n) / 32768 > 0.02`, that is
/// `energy / n > 0.0004 * 32768^2`, that is `10000 * energy > 2^32 * n`.
pub open spec fn loud(s: Seq<i16>) -> bool {
    10_000 * energy(s) > 4_294_967_296 * s.len()
}

/// The largest amplitude exceeds 0.1, that is `peak / 32768 > 1 / 10`.
pub open spec fn peaked(s: Seq<i16>) -> bool {
    10 * peak(s) > 32_768
}

/// Segment `k` of the ten equal segments; samples beyond the tenth belong to none.
pub open spec fn segment(s: Seq<i16>, k: int) -> Seq<i16> {
    let m = (s.len() / SEGMENTS as nat) as int;
    s.subrange(k * m, (k + 1) * m)
}

/// Two segments of `m` samples with energies `a` and `b` differ in root mean square
/// by more than 0.015.
///
/// With `hi` the larger energy and `lo` the smaller, the claim is
/// `sqrt(hi) - sqrt(lo) > c * sqrt(m)` for `c = 0.015 * 32768 = 12288 / 25`. Moving
/// `sqrt(lo)` over and squaring gives `hi - lo - c^2 * m > 2 * c * sqrt(lo * m)`, which
/// holds exactly when the left side is positive and its square exceeds
/// `4 * c^2 * lo * m`. Both sides are scaled by 625 to clear the fraction.
pub open spec fn levels_differ(a: int, b: int, m: int) -> bool {
    let hi = max(a, b);
    let lo = min(a, b);
    let gap = 625 * (hi - lo) - 150_994_944 * m;
    gap > 0 && gap * gap > 377_487_360_000 * lo * m
}

/// How many of the first `k` pairs of neighbouring segments differ in level.
pub open spec fn varied_pairs(s: Seq<i16>, k: int) -> int
    decreases k,
{
    if k <= 0 {
        0
    } else {
        varied_pairs(s, k - 1) + if levels_differ(
            energy(segment(s, k - 1)),
            energy(segment(s, k)),
            (s.len() / SEGMENTS as nat) as int,
        ) {
            1int
        } else {
            0int
        }
    }
}

/// The buffer is long enough, loud enough, has a clear peak, and its level moves.
pub open spec fn speech_present(s: Seq<i16>) -> bool {
    &&& s.len() >= MIN_SPEECH_SAMPLES
    &&& loud(s)
    &&& peaked(s)
    &&& varied_pairs(s, SEGMENTS - 1) >= MIN_VARIED_PAIRS
}

fn energy_of(s: &Vec<i16>, from: usize, to: usize) -> (e: u128)
    requires
        from <= to <= s.len(),
    ensures
        e == energy(s@.subrange(from as int, to as int)),
        e <= (to - from) * 1_073_741_824,
{
    let mut e: u128 = 0;
    let mut i: usize = from;
    assert(s@.subrange(from as int, from as int) =~= Seq::<i16>::empty());
    while i < to
        invariant
            from <= i <= to <= s.len(),
            e == energy(s@.subrange(from as int, i as int)),
            e <= (i - from) * 1_073_741_824,
        decreases to - i,
    {
        let v: i64 = s[i] as i64;
        proof {
            let run = s@.subrange(from as int, i + 1);
            assert(run.drop_last() =~= s@.subrange(from as int, i as int));
            assert(run.last() == s[i as int]);
            assert(0 <= v * v <= 1_073_741_824) by (nonlinear_arith)
                requires
                    -32768 <= v <= 32767,
            ;
        }
        e = e + (v * v) as u128;
        i += 1;
    }
    e
}

fn peak_of(s: &Vec<i16>) -> (p: u32)
    ensures
        p == peak(s@),
        p <= 32768,
{
    let mut p: u32 = 0;
    let mut i: usize = 0;
    assert(s@.take(0) =~= Seq::<i16>::empty());
    while i < s.len()
        invariant
            i <= s.len(),
            p == peak(s@.take(i as int)),
            p <= 32768,
        decreases s.len() - i,
    {
        let v: i32 = s[i] as i32;
        let m: u32 = if v < 0 {
            (-v) as u32
        } else {
            v as u32
        };
        proof {
            let run = s@.take(i + 1);
            assert(run.drop_last() =~= s@.take(i as int));
            assert(run.last() == s[i as int]);
        }
        if m > p {
            p = m;
        }
        i += 1;
    }
    assert(s@.take(s.len() as int) =~= s@);
    p
}

/// The value of three limbs to the base 2^64, the lowest last.
pub open spec fn limbs_value(high: int, middle: int, low: int) -> int {
    high * 340_282_366_920_938_463_463_374_607_431_768_211_456 + middle
        * 18_446_744_073_709_551_616 + low
}

/// The product of two numbers below 2^104, which may not fit 128 bits, as three
/// limbs to the base 2^64 of which the lower two are below the base.
fn wide_product(x: u128, y: u128) -> (t: (u128, u128, u128))
    requires
        x < 0x100_0000_0000_0000_0000_0000_0000,
        y < 0x100_0000_0000_0000_0000_0000_0000,
    ensures
        x * y == limbs_value(t.0 as int, t.1 as int, t.2 as int),
        t.1 < 0x1_0000_0000_0000_0000,
        t.2 < 0x1_0000_0000_0000_0000,
{
    let x1: u128 = x / 0x1_0000_0000_0000_0000;
    let x0: u128 = x % 0x1_0000_0000_0000_0000;
    let y1: u128 = y / 0x1_0000_0000_0000_0000;
    let y0: u128 = y % 0x1_0000_0000_0000_0000;
    proof {
        assert(x1 < 0x100_0000_0000 && y1 < 0x100_0000_0000);
        assert(0 <= x0 * y0 <= 0xffff_ffff_ffff_ffff * 0xffff_ffff_ffff_ffff) by (nonlinear_arith)
            requires
                0 <= x0 <= 0xffff_ffff_ffff_ffff,
                0 <= y0 <= 0xffff_ffff_ffff_ffff,
        ;
        assert(0 <= x0 * y1 <= 0xffff_ffff_ffff_ffff * 0xff_ffff_ffff) by (nonlinear_arith)
            requires
                0 <= x0 <= 0xffff_ffff_ffff_ffff,
                0 <= y1 <= 0xff_ffff_ffff,
        ;
        assert(0 <= x1 * y0 <= 0xff_ffff_ffff * 0xffff_ffff_ffff_ffff) by (nonlinear_arith)
            requires
                0 <= x1 <= 0xff_ffff_ffff,
                0 <= y0 <= 0xffff_ffff_ffff_ffff,
        ;
        assert(0 <= x1 * y1 <= 0xff_ffff_ffff * 0xff_ffff_ffff) by (nonlinear_arith)
            requires
                0 <= x1 <= 0xff_ffff_ffff,
                0 <= y1 <= 0xff_ffff_ffff,
        ;
    }
    let low: u128 = x0 * y0;
    let cross: u128 = x0 * y1 + x1 * y0;
    let high: u128 = x1 * y1;
    let t0: u128 = low % 0x1_0000_0000_0000_0000;
    let carried: u128 = cross + low / 0x1_0000_0000_0000_0000;
    let t1: u128 = carried % 0x1_0000_0000_0000_0000;
    let t2: u128 = high + carried / 0x1_0000_0000_0000_0000;
    proof {
        assert(x * y == high * 340_282_366_920_938_463_463_374_607_431_768_211_456 + cross
            * 18_446_744_073_709_551_616 + low) by (nonlinear_arith)
            requires
                x == x1 * 18_446_744_073_709_551_616 + x0,
                y == y1 * 18_446_744_073_709_551_616 + y0,
                high == x1 * y1,
                cross == x0 * y1 + x1 * y0,
                low == x0 * y0,
        ;
        let c0: int = low as int / 18_446_744_073_709_551_616;
        let c1: int = carried as int / 18_446_744_073_709_551_616;
        assert(low == c0 * 18_446_744_073_709_551_616 + t0);
        assert(carried == c1 * 18_446_744_073_709_551_616 + t1);
        assert(c1 * 340_282_366_920_938_463_463_374_607_431_768_211_456 == (c1
            * 18_446_744_073_709_551_616) * 18_446_744_073_709_551_616);
    }
    (t2, t1, t0)
}

/// Whether `a * b` exceeds `c * d`, for numbers whose products may not fit 128 bits.
fn product_exceeds(a: u128, b: u128, c: u128, d: u128) -> (r: bool)
    requires
        a < 0x100_0000_0000_0000_0000_0000_0000,
        b < 0x100_0000_0000_0000_0000_0000_0000,
        c < 0x100_0000_0000_0000_0000_0000_0000,
        d < 0x100_0000_0000_0000_0000_0000_0000,
    ensures
        r == (a * b > c * d),
{
    let p: (u128, u128, u128) = wide_product(a, b);
    let q: (u128, u128, u128) = wide_product(c, d);
    p.0 > q.0 || (p.0 == q.0 && (p.1 > q.1 || (p.1 == q.1 && p.2 > q.2)))
}

fn differ(a: u128, b: u128, m: usize) -> (r: bool)
    requires
        a <= m * 1_073_741_824,
        b <= m * 1_073_741_824,
    ensures
        r == levels_differ(a as int, b as int, m as int),
{
    let hi: u128 = if a >= b {
        a
    } else {
        b
    };
    let lo: u128 = if a >= b {
        b
    } else {
        a
    };
    // Sizes have at most 64 bits, so an energy stays below 2^94 and each of the
    // numbers that follow below 2^104.
    assert(m <= 0xffff_ffff_ffff_ffff);
    let spread: u128 = 625 * (hi - lo);
    let floor: u128 = 150_994_944 * (m as u128);
    if spread <= floor {
        return false;
    }
    let gap: u128 = spread - floor;
    let weight: u128 = 377_487_360_000 * (m as u128);
    proof {
        assert(377_487_360_000 * lo * m == weight * lo) by (nonlinear_arith)
            requires
                weight == 377_487_360_000 * m,
        ;
    }
    product_exceeds(gap, gap, weight, lo)
}

/// Decides whether a buffer is worth transcribing.
pub fn has_speech(buffer: &AudioBuffer) -> (r: bool)
    ensures
        r == speech_present(buffer@),
{
    let s: &Vec<i16> = buffer.samples();
    let n: usize = s.len();
    if n < MIN_SPEECH_SAMPLES {
        return false;
    }
    assert(s@.subrange(0, n as int) =~= s@);
    let total: u128 = energy_of(s, 0, n);
    if 10_000 * total <= 4_294_967_296 * (n as u128) {
        return false;
    }
    let top: u32 = peak_of(s);
    if 10 * top <= 32_768 {
        return false;
    }
    let m: usize = n / SEGMENTS;
    let mut varied: usize = 0;
    let mut k: usize = 0;
    let mut start: usize = 0;
    let mut before: u128 = energy_of(s, 0, m);
    assert(segment(s@, 0) == s@.subrange(0, m as int));
    assert(varied_pairs(s@, 0) == 0);
    while k < SEGMENTS - 1
        invariant
            s@ == buffer@,
            n == s.len(),
            m == n / SEGMENTS,
            k <= SEGMENTS - 1,
            start == k * m,
            varied == varied_pairs(s@, k as int),
            varied <= k,
            before == energy(segment(s@, k as int)),
            before <= m * 1_073_741_824,
        decreases SEGMENTS - 1 - k,
    {
        proof {
            assert((k + 1) * m == k * m + m) by (nonlinear_arith);
            assert((k + 2) * m == k * m + 2 * m) by (nonlinear_arith);
            assert((k + 2) * m <= 10 * m) by (nonlinear_arith)
                requires
                    k + 2 <= 10,
            ;
        }
        let after: u128 = energy_of(s, start + m, start + 2 * m);
        if differ(before, after, m) {
            varied += 1;
        }
        before = after;
        start = start + m;
        k += 1;
    }
    varied >= MIN_VARIED_PAIRS
}

/// Where the three numbers are exact squares, the test on energies is the test on
/// their roots: the levels `u / w` and `v / w`, taken as amplitudes, differ by more
/// than 0.015 exactly when `25 * (u - v) > 12288 * w`.
pub proof fn lemma_levels_differ_on_exact_roots(u: int, v: int, w: int)
    requires
        0 <= v <= u,
        0 < w,
    ensures
        levels_differ(u * u, v * v, w * w) <==> 25 * (u - v) > 12288 * w,
        levels_differ(v * v, u * u, w * w) <==> 25 * (u - v) > 12288 * w,
{
    let a: int = 25 * u;
    let b: int = 25 * v;
    let c: int = 12288 * w;
    let gap: int = 625 * (u * u - v * v) - 150_994_944 * (w * w);
    assert(v * v <= u * u) by (nonlinear_arith)
        requires
            0 <= v <= u,
    ;
    assert(gap == a * a - b * b - c * c) by (nonlinear_arith)
        requires
            a == 25 * u,
            b == 25 * v,
            c == 12288 * w,
            gap == 625 * (u * u - v * v) - 150_994_944 * (w * w),
    ;
    assert(377_487_360_000 * (v * v) * (w * w) == (2 * b * c) * (2 * b * c)) by (nonlinear_arith)
        requires
            b == 25 * v,
            c == 12288 * w,
    ;
    assert(gap - 2 * b * c == (a - b - c) * (a + b + c)) by (nonlinear_arith)
        requires
            gap == a * a - b * b - c * c,
    ;
    assert(0 <= 2 * b * c) by (nonlinear_arith)
        requires
            0 <= b,
            0 < c,
    ;
    if a - b > c {
        assert((a - b - c) * (a + b + c) > 0) by (nonlinear_arith)
            requires
                a - b - c > 0,
                a + b + c > 0,
        ;
        assert(gap * gap > (2 * b * c) * (2 * b * c)) by (nonlinear_arith)
            requires
                gap > 2 * b * c,
                0 <= 2 * b * c,
        ;
    } else {
        assert((a - b - c) * (a + b + c) <= 0) by (nonlinear_arith)
            requires
                a - b - c <= 0,
                a + b + c > 0,
        ;
        if gap > 0 {
            assert(gap * gap <= (2 * b * c) * (2 * b * c)) by (nonlinear_arith)
                requires
                    0 < gap <= 2 * b * c,
            ;
        }
    }
}

/// Where every sample has the magnitude `r`, the test on the energy is the test on
/// `r`: the root mean square, taken as an amplitude, exceeds 0.02 exactly when
/// `100 * r > 65536`.
pub proof fn lemma_loud_on_constant_magnitude(s: Seq<i16>, r: int)
    requires
        s.len() > 0,
        0 <= r,
        forall|i: int| 0 <= i < s.len() ==> magnitude(#[trigger] s[i]) == r,
    ensures
        energy(s) == s.len() * (r * r),
        loud(s) <==> 100 * r > 65536,
{
    lemma_energy_of_constant_magnitude(s, r);
    let n: int = s.len() as int;
    let e: int = energy(s);
    if 100 * r > 65536 {
        assert((100 * r) * (100 * r) > 65536 * 65536) by (nonlinear_arith)
            requires
                100 * r > 65536,
        ;
    } else {
        assert((100 * r) * (100 * r) <= 65536 * 65536) by (nonlinear_arith)
            requires
                0 <= 100 * r <= 65536,
        ;
    }
    assert(10_000 * e == n * ((100 * r) * (100 * r))) by (nonlinear_arith)
        requires
            e == n * (r * r),
    ;
    assert(n * ((100 * r) * (100 * r)) > 4_294_967_296 * n <==> (100 * r) * (100 * r) > 65536
        * 65536) by (nonlinear_arith)
        requires
            n > 0,
    ;
}

/// The energy of samples of one magnitude.
pub proof fn lemma_energy_of_constant_magnitude(s: Seq<i16>, r: int)
    requires
        forall|i: int| 0 <= i < s.len() ==> magnitude(#[trigger] s[i]) == r,
    ensures
        energy(s) == s.len() * (r * r),
    decreases s.len(),
{
    if s.len() > 0 {
        lemma_energy_of_constant_magnitude(s.drop_last(), r);
        let v: int = s.last() as int;
        assert(magnitude(s[s.len() - 1]) == r);
        assert(v * v == r * r) by (nonlinear_arith)
            requires
                v == r || v == -r,
        ;
        assert(s.len() * (r * r) == (s.len() - 1) * (r * r) + r * r) by (nonlinear_arith);
    } else {
        assert(0 * (r * r) == 0);
    }
}

/// A buffer of zeros, of any length, holds no speech.
pub proof fn lemma_silence_has_no_speech(s: Seq<i16>)
    requires
        forall|i: int| 0 <= i < s.len() ==> s[i] == 0,
    ensures
        !speech_present(s),
{
    lemma_peak_of_silence(s);
}

/// The peak of a buffer of zeros is zero.
pub proof fn lemma_peak_of_silence(s: Seq<i16>)
    requires
        forall|i: int| 0 <= i < s.len() ==> s[i] == 0,
    ensures
        peak(s) == 0,
    decreases s.len(),
{
    if s.len() > 0 {
        lemma_peak_of_silence(s.drop_last());
    }
}

/// A buffer of less than half a second holds no speech, however loud it is.
pub proof fn lemma_short_buffer_has_no_speech(s: Seq<i16>)
    requires
        s.len() < MIN_SPEECH_SAMPLES,
    ensures
        !speech_present(s),
{
}

} // verus!
