//! The discrete side of spectral analysis: the layout of the zero-padded
//! transform, the frequency of each bin, and the choice of salient peaks in
//! a magnitude spectrum.
//!
//! Magnitudes are unsigned integers on a linear scale. The transform itself
//! works on real numbers and is left to the caller, who scales its output.

use crate::audio_buffer::{MAX_RESOLUTION, MIN_RESOLUTION};
use vstd::prelude::*;

verus! {

/// Largest factor by which a window may be zero-padded.
pub const MAX_ZPADDING: u32 = 32;

/// Longest spectrum: the longest window, padded by the largest factor.
pub const MAX_SPECTRUM_LEN: usize = 33_554_432;

/// How a window is turned into a spectrum.
#[derive(Clone, Copy, Debug, PartialEq, Eq, Structural)]
pub struct ScoringOptions {
    /// Sample rate of the stream, in Hz.
    pub frequency: u32,
    /// The window is padded with zeros to this many times its length. This
    /// narrows the spacing of the bins from `frequency / resolution` to
    /// `frequency / (resolution * zpadding)` and multiplies the cost of the
    /// transform accordingly.
    pub zpadding: u32,
}

impl ScoringOptions {
    /// The sample rate is positive and the padding factor within range.
    pub open spec fn wf(self) -> bool {
        self.frequency >= 1 && 1 <= self.zpadding <= MAX_ZPADDING
    }

    /// Options for the given sample rate and padding factor, or `None` when
    /// the rate is zero or the factor out of range.
    pub fn new(frequency: u32, zpadding: u32) -> (r: Option<ScoringOptions>)
        ensures
            r == if frequency >= 1 && 1 <= zpadding <= MAX_ZPADDING {
                Some(ScoringOptions { frequency, zpadding })
            } else {
                None
            },
    {
        if frequency >= 1 && 1 <= zpadding && zpadding <= MAX_ZPADDING {
            Some(ScoringOptions { frequency, zpadding })
        } else {
            None
        }
    }

    /// Whether the sample rate is positive and the padding factor within
    /// range.
    pub fn is_valid(&self) -> (ok: bool)
        ensures
            ok == self.wf(),
    {
        self.frequency >= 1 && 1 <= self.zpadding && self.zpadding <= MAX_ZPADDING
    }

    /// The length of the padded window, which is the number of bins of the
    /// spectrum.
    pub fn padded_len(&self, resolution: usize) -> (n: usize)
        requires
            self.wf(),
            MIN_RESOLUTION <= resolution <= MAX_RESOLUTION,
        ensures
            n == resolution * self.zpadding,
            MIN_RESOLUTION <= n <= MAX_SPECTRUM_LEN,
    {
        assert(resolution * self.zpadding <= MAX_RESOLUTION * MAX_ZPADDING) by (nonlinear_arith)
            requires
                resolution <= MAX_RESOLUTION,
                self.zpadding <= MAX_ZPADDING,
        ;
        assert(resolution * self.zpadding >= resolution) by (nonlinear_arith)
            requires
                self.zpadding >= 1,
        ;
        resolution * (self.zpadding as usize)
    }
}

/// `window` followed by zeros up to `factor` times its length.
pub open spec fn spec_zero_pad<T>(window: Seq<T>, factor: nat, zero: T) -> Seq<T> {
    Seq::new(window.len() * factor, |i: int| if i < window.len() { window[i] } else { zero })
}

/// Pads `window` with `zero` to `factor` times its length.
pub fn zero_pad<T: Copy>(window: &Vec<T>, factor: usize, zero: T) -> (out: Vec<T>)
    requires
        factor >= 1,
        window@.len() * factor <= usize::MAX,
    ensures
        out@ == spec_zero_pad(window@, factor as nat, zero),
        out@.len() == window@.len() * factor,
        out@.subrange(0, window@.len() as int) == window@,
{
    let len: usize = window.len();
    assert(len * factor >= len) by (nonlinear_arith)
        requires
            factor >= 1,
    ;
    let total: usize = len * factor;
    let mut out: Vec<T> = Vec::new();
    let mut i: usize = 0;
    while i < total
        invariant
            i <= total,
            len == window@.len(),
            len <= total,
            out@.len() == i,
            forall|j: int| 0 <= j < i ==> #[trigger] out@[j] == if j < len { window@[j] } else { zero },
        decreases total - i,
    {
        if i < len {
            out.push(window[i]);
        } else {
            out.push(zero);
        }
        i = i + 1;
    }
    out
}

/// A bin is salient when its power exceeds this many times the mean power
/// of all bins.
pub const PEAK_FLOOR_FACTOR: u128 = 4;

/// The greatest power of a single bin: the square of the greatest
/// magnitude.
pub const MAX_POWER: u128 = 0xFFFF_FFFE_0000_0001;

/// A dominant frequency of one window.
#[derive(Clone, Copy, Debug, PartialEq, Eq, Structural)]
pub struct Peak {
    /// The bin of the spectrum at which the peak lies.
    pub bin: usize,
    /// The magnitude of the spectrum at that bin.
    pub magnitude: u32,
}

/// The energy of a spectrum: the sum of the squares of its magnitudes.
pub open spec fn spec_energy(s: Seq<u32>) -> nat
    decreases s.len(),
{
    if s.len() == 0 {
        0
    } else {
        spec_energy(s.drop_last()) + (s.last() as nat) * (s.last() as nat)
    }
}

/// The power of bin `k` exceeds `PEAK_FLOOR_FACTOR` times the mean power.
pub open spec fn is_salient(s: Seq<u32>, k: int) -> bool {
    (s[k] as nat) * (s[k] as nat) * s.len() > PEAK_FLOOR_FACTOR * spec_energy(s)
}

/// Bin `k` is a peak: it lies above the constant term and below the Nyquist
/// limit, its magnitude is greater than that of both neighbours, and it is
/// salient.
pub open spec fn is_peak(s: Seq<u32>, k: int) -> bool {
    &&& 1 <= k
    &&& 2 * k < s.len()
    &&& s[k - 1] < s[k]
    &&& s[k] > s[k + 1]
    &&& is_salient(s, k)
}

/// The energy of a spectrum is at most its length times the greatest power
/// of a bin.
pub proof fn lemma_energy_bound(s: Seq<u32>)
    ensures
        spec_energy(s) <= s.len() * MAX_POWER,
    decreases s.len(),
{
    if s.len() > 0 {
        lemma_energy_bound(s.drop_last());
        let m = s.last() as nat;
        assert(m * m <= MAX_POWER) by (nonlinear_arith)
            requires
                m <= 0xFFFF_FFFF,
        ;
        assert(s.len() * MAX_POWER == s.drop_last().len() * MAX_POWER
            + MAX_POWER) by (nonlinear_arith)
            requires
                s.len() == s.drop_last().len() + 1,
        ;
    }
}

/// The energy of a spectrum.
pub fn energy(spectrum: &Vec<u32>) -> (e: u128)
    requires
        spectrum@.len() <= MAX_SPECTRUM_LEN,
    ensures
        e == spec_energy(spectrum@),
{
    let mut e: u128 = 0;
    let mut i: usize = 0;
    while i < spectrum.len()
        invariant
            i <= spectrum@.len() <= MAX_SPECTRUM_LEN,
            e == spec_energy(spectrum@.subrange(0, i as int)),
        decreases spectrum@.len() - i,
    {
        let m: u128 = spectrum[i] as u128;
        proof {
            let next = spectrum@.subrange(0, i + 1);
            assert(next.drop_last() == spectrum@.subrange(0, i as int));
            lemma_energy_bound(next);
            assert(next.len() * MAX_POWER <= MAX_SPECTRUM_LEN * MAX_POWER)
                by (nonlinear_arith)
                requires
                    next.len() <= MAX_SPECTRUM_LEN,
            ;
            assert(m * m <= MAX_POWER) by (nonlinear_arith)
                requires
                    m <= 0xFFFF_FFFF,
            ;
        }
        e = e + m * m;
        i = i + 1;
    }
    assert(spectrum@.subrange(0, i as int) == spectrum@);
    e
}

/// `peaks` lists exactly the peaks of `s`, each once, by ascending bin.
pub open spec fn lists_peaks(s: Seq<u32>, peaks: Seq<Peak>) -> bool {
    &&& forall|i: int|
        0 <= i < peaks.len() ==> is_peak(s, (#[trigger] peaks[i]).bin as int) && peaks[i].magnitude
            == s[peaks[i].bin as int]
    &&& forall|i: int, j: int|
        0 <= i < j < peaks.len() ==> (#[trigger] peaks[i]).bin < (#[trigger] peaks[j]).bin
    &&& forall|k: int|
        is_peak(s, k) ==> exists|i: int| 0 <= i < peaks.len() && (#[trigger] peaks[i]).bin == k
}

/// The peaks of a magnitude spectrum, by ascending bin.
///
/// `spectrum` holds one magnitude for each bin of the transform, the
/// constant term first.
pub fn find_peaks(spectrum: &Vec<u32>) -> (peaks: Vec<Peak>)
    requires
        spectrum@.len() <= MAX_SPECTRUM_LEN,
    ensures
        lists_peaks(spectrum@, peaks@),
{
    let n: usize = spectrum.len();
    let total: u128 = energy(spectrum);
    proof {
        lemma_energy_bound(spectrum@);
        assert(spectrum@.len() * MAX_POWER <= MAX_SPECTRUM_LEN * MAX_POWER)
            by (nonlinear_arith)
            requires
                spectrum@.len() <= MAX_SPECTRUM_LEN,
        ;
    }
    let floor: u128 = PEAK_FLOOR_FACTOR * total;
    let mut peaks: Vec<Peak> = Vec::new();
    let last: usize = if n == 0 {
        0
    } else {
        (n - 1) / 2
    };
    let mut k: usize = 1;
    while k <= last
        invariant
            1 <= k,
            n == spectrum@.len(),
            n <= MAX_SPECTRUM_LEN,
            last == if n == 0 { 0 } else { (n - 1) / 2 },
            floor == PEAK_FLOOR_FACTOR * spec_energy(spectrum@),
            forall|i: int|
                0 <= i < peaks@.len() ==> is_peak(spectrum@, (#[trigger] peaks@[i]).bin as int)
                    && peaks@[i].magnitude == spectrum@[peaks@[i].bin as int] && peaks@[i].bin < k,
            forall|i: int, j: int|
                0 <= i < j < peaks@.len() ==> (#[trigger] peaks@[i]).bin < (#[trigger] peaks@[j]).bin,
            forall|j: int|
                1 <= j < k && is_peak(spectrum@, j) ==> exists|i: int|
                    0 <= i < peaks@.len() && (#[trigger] peaks@[i]).bin == j,
        decreases last + 1 - k,
    {
        assert(2 * k < n);
        let m: u32 = spectrum[k];
        assert(m * m <= MAX_POWER) by (nonlinear_arith)
            requires
                m <= 0xFFFF_FFFF,
        ;
        let power: u128 = (m as u128) * (m as u128);
        proof {
            assert(power * n <= MAX_POWER * MAX_SPECTRUM_LEN) by (nonlinear_arith)
                requires
                    power <= MAX_POWER,
                    n <= MAX_SPECTRUM_LEN,
            ;
        }
        if spectrum[k - 1] < m && m > spectrum[k + 1] && power * (n as u128) > floor {
            let ghost before = peaks@;
            peaks.push(Peak { bin: k, magnitude: m });
            assert forall|j: int| 1 <= j < k + 1 && is_peak(spectrum@, j) implies exists|i: int|
                0 <= i < peaks@.len() && (#[trigger] peaks@[i]).bin == j by {
                if j < k {
                    let i = choose|i: int| 0 <= i < before.len() && (#[trigger] before[i]).bin == j;
                    assert(peaks@[i].bin == j);
                } else {
                    assert(peaks@[before.len() as int].bin == j);
                }
            }
        }
        k = k + 1;
    }
    assert forall|j: int| is_peak(spectrum@, j) implies exists|i: int|
        0 <= i < peaks@.len() && (#[trigger] peaks@[i]).bin == j by {
        assert(j <= last);
    }
    peaks
}

/// The frequency of bin `bin` in a spectrum of `len` bins at sample rate
/// `rate`, in thousandths of a hertz, rounded down.
pub open spec fn spec_bin_frequency(bin: nat, rate: nat, len: nat) -> nat {
    (bin * rate * 1000) / len
}

/// The frequency of a bin below the Nyquist limit, in thousandths of a
/// hertz, rounded down.
pub fn bin_frequency(bin: usize, rate: u32, len: usize) -> (f: u64)
    requires
        2 * bin < len <= MAX_SPECTRUM_LEN,
    ensures
        f == spec_bin_frequency(bin as nat, rate as nat, len as nat),
        2 * f <= rate * 1000,
{
    let scaled: u64 = (rate as u64) * 1000;
    assert(bin * scaled <= MAX_SPECTRUM_LEN * scaled) by (nonlinear_arith)
        requires
            bin <= MAX_SPECTRUM_LEN,
    ;
    let product: u128 = (bin as u128) * (scaled as u128);
    let quotient: u128 = product / (len as u128);
    proof {
        assert(bin * rate * 1000 == bin * scaled) by (nonlinear_arith)
            requires
                scaled == rate * 1000,
        ;
        lemma_half_quotient(bin as int, scaled as int, len as int);
    }
    quotient as u64
}

/// A bin in the lower half of the spectrum has at most half the scaled rate.
proof fn lemma_half_quotient(bin: int, scaled: int, len: int)
    requires
        0 <= bin,
        0 <= scaled,
        2 * bin < len,
    ensures
        0 <= (bin * scaled) / len,
        2 * ((bin * scaled) / len) <= scaled,
{
    let q = (bin * scaled) / len;
    vstd::arithmetic::div_mod::lemma_fundamental_div_mod(bin * scaled, len);
    let r = (bin * scaled) % len;
    assert(0 <= r < len);
    assert(0 <= bin * scaled) by (nonlinear_arith)
        requires
            0 <= bin,
            0 <= scaled,
    ;
    assert(0 <= q && 2 * q <= scaled) by (nonlinear_arith)
        requires
            bin * scaled == len * q + r,
            0 <= r < len,
            0 <= bin * scaled,
            2 * bin < len,
            0 <= scaled,
    ;
}

/// Zero padding interpolates between the bins and moves none of them: bin
/// `bin` of the spectrum of a window has the frequency of bin `bin * factor`
/// of the spectrum of that window padded by `factor`.
pub proof fn lemma_padding_keeps_frequencies(bin: nat, rate: nat, resolution: nat, factor: nat)
    requires
        resolution > 0,
        factor > 0,
    ensures
        spec_bin_frequency(bin * factor, rate, resolution * factor) == spec_bin_frequency(
            bin,
            rate,
            resolution,
        ),
{
    let a = (bin * rate * 1000) as int;
    let d = resolution as int;
    let x = factor as int;
    vstd::arithmetic::div_mod::lemma_div_multiples_vanish_quotient(x, a, d);
    assert((bin * factor) * rate * 1000 == x * a) by (nonlinear_arith)
        requires
            a == bin * rate * 1000,
            x == factor,
    ;
    assert(resolution * factor == x * d) by (nonlinear_arith)
        requires
            x == factor,
            d == resolution,
    ;
}

} // verus!
