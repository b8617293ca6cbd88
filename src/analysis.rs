//! Feature extraction: band energies, level, beat, spectral centroid and flux,
//! and their smoothed variants, from a raw sample window or from byte spectra.
//!
//! All scalars are fixed-point numbers in units of `1 / ONE`.
use vstd::prelude::*;
use crate::fixed::{ONE, abs, is_isqrt, ema, min_int, max_int, isqrt, smooth};

verus! {

/// Longest sample window or spectrum that one frame may hold.
pub const MAX_FRAME_LEN: usize = 0xffff_ffff;

/// Smoothing coefficient of live input, 0.15.
pub const LIVE_SMOOTHING: u64 = 1500;

/// Smoothing coefficient of the synthetic demo signal, 0.1.
pub const DEMO_SMOOTHING: u64 = 1000;

/// Rise of the bass band over its smoothed value that a beat needs, 0.1.
pub const BEAT_JUMP: u64 = 1000;

/// Absolute bass floor of a beat on raw sample input, 0.3.
pub const RAW_BASS_FLOOR: u64 = 3000;

/// Absolute bass floor of a beat on byte spectrum input, 0.6.
pub const BYTE_BASS_FLOOR: u64 = 6000;

/// One frame of the synthetic demo signal. The envelope lies in [0, 1]; each
/// wave is `1 + sin(..)` of its own oscillator and lies in [0, 2].
pub struct DemoSignal {
    pub beat_envelope: u64,
    pub low_mid_wave: u64,
    pub mid_wave: u64,
    pub high_mid_wave: u64,
    pub treble_wave: u64,
    pub centroid_wave: u64,
}

impl DemoSignal {
    pub open spec fn valid(&self) -> bool {
        &&& self.beat_envelope <= ONE
        &&& self.low_mid_wave <= 2 * ONE
        &&& self.mid_wave <= 2 * ONE
        &&& self.high_mid_wave <= 2 * ONE
        &&& self.treble_wave <= 2 * ONE
        &&& self.centroid_wave <= 2 * ONE
    }
}

/// `base + wave * amp`, fixed point, rounded down.
pub open spec fn wave_level(base: int, wave: int, amp: int) -> int {
    base + wave * amp / ONE as int
}

/// Features of the current frame, plus the smoothed values that persist
/// across frames.
pub struct AudioAnalysis {
    pub bass: u64,
    pub low_mid: u64,
    pub mid: u64,
    pub high_mid: u64,
    pub treble: u64,
    pub volume: u64,
    pub peak: u64,
    pub beat: bool,
    pub beat_intensity: u64,
    pub spectral_centroid: u64,
    pub spectral_flux: u64,
    pub smooth_bass: u64,
    pub smooth_mid: u64,
    pub smooth_treble: u64,
    pub smooth_volume: u64,
    /// Magnitudes of the last frame on the 0..=255 scale, in units of `1 / ONE`;
    /// the snapshot that the next frame's flux is measured against.
    pub frequency_data: Vec<u64>,
    /// Amplitudes of the last frame, full scale `ONE`.
    pub time_data: Vec<i64>,
}

/// Sum of `|s[i]|` for `lo <= i < hi`.
pub open spec fn sum_abs(s: Seq<i32>, lo: int, hi: int) -> int
    decreases hi - lo,
{
    if hi <= lo { 0 } else { sum_abs(s, lo, hi - 1) + abs(s[hi - 1] as int) }
}

/// Mean absolute amplitude of `s[lo..hi]`, 0 for an empty range.
pub open spec fn mean_abs(s: Seq<i32>, lo: int, hi: int) -> int {
    if hi <= lo { 0 } else { sum_abs(s, lo, hi) / (hi - lo) }
}

/// Sum of squares of the first `n` samples.
pub open spec fn sum_sq(s: Seq<i32>, n: int) -> int
    decreases n,
{
    if n <= 0 { 0 } else { sum_sq(s, n - 1) + s[n - 1] * s[n - 1] }
}

/// Largest `|s[i]|` among the first `n` samples, 0 if there are none.
pub open spec fn max_abs(s: Seq<i32>, n: int) -> int
    decreases n,
{
    if n <= 0 { 0 } else { max_int(max_abs(s, n - 1), abs(s[n - 1] as int)) }
}

/// Rectified amplitude used as the raw path's stand-in for a spectrum:
/// `min(|x| * 255, 255)` on the 0..=255 scale.
pub open spec fn rectified(s: Seq<i32>) -> Seq<u64> {
    Seq::new(s.len(), |i: int| min_int(abs(s[i] as int) * 255, 255 * ONE) as u64)
}

/// Value of the previous snapshot at `i`, 0 past its end.
pub open spec fn prev_at(prev: Seq<u64>, i: int) -> int {
    if 0 <= i < prev.len() { prev[i] as int } else { 0 }
}

/// Sum of the positive parts of `cur[i] - prev[i]` for `i < n`.
pub open spec fn pos_diff_sum(cur: Seq<u64>, prev: Seq<u64>, n: int) -> int
    decreases n,
{
    if n <= 0 {
        0
    } else {
        pos_diff_sum(cur, prev, n - 1) + max_int(cur[n - 1] as int - prev_at(prev, n - 1), 0)
    }
}

/// Band ranges of a raw window of `len` samples: eighths of the window,
/// segments 0, 1, 2-3, 4-5 and 6-7, the last reaching the end.
pub open spec fn raw_band(len: int, band: int) -> (int, int) {
    let b = len / 8;
    if band == 0 {
        (0, max_int(b, 1))
    } else if band == 1 {
        (b, max_int(2 * b, b + 1))
    } else if band == 2 {
        (2 * b, max_int(4 * b, 2 * b + 1))
    } else if band == 3 {
        (4 * b, min_int(6 * b, len))
    } else {
        (6 * b, len)
    }
}

/// Mean absolute amplitude of raw band `band`.
pub open spec fn raw_band_level(s: Seq<i32>, band: int) -> int {
    mean_abs(s, raw_band(s.len() as int, band).0, raw_band(s.len() as int, band).1)
}

/// Whether a beat fires for a new bass level against the smoothed bass of the
/// frame before.
pub open spec fn beat_fires(bass: int, prev_smooth_bass: int, floor: int) -> bool {
    bass - prev_smooth_bass > BEAT_JUMP && bass > floor
}

/// Beat intensity: the rise, capped at 1.0, when a beat fires, else 0.
pub open spec fn beat_strength(bass: int, prev_smooth_bass: int, floor: int) -> int {
    if beat_fires(bass, prev_smooth_bass, floor) {
        min_int(bass - prev_smooth_bass, ONE as int)
    } else {
        0
    }
}

/// Sum of `s[i]` for `lo <= i < hi`.
pub open spec fn sum_bytes(s: Seq<u8>, lo: int, hi: int) -> int
    decreases hi - lo,
{
    if hi <= lo { 0 } else { sum_bytes(s, lo, hi - 1) + s[hi - 1] }
}

/// Mean of the bins `s[lo..hi]` normalized by 255, 0 for an empty range.
pub open spec fn byte_band_level(s: Seq<u8>, lo: int, hi: int) -> int {
    if hi <= lo { 0 } else { sum_bytes(s, lo, hi) * ONE / ((hi - lo) * 255) }
}

/// Bin ranges of a spectrum of `len` bins: the first sixteenth, the next
/// sixteenth, then an eighth, a quarter and the upper half.
pub open spec fn fft_band(len: int, band: int) -> (int, int) {
    if band == 0 {
        (0, len / 16)
    } else if band == 1 {
        (len / 16, len / 8)
    } else if band == 2 {
        (len / 8, len / 4)
    } else if band == 3 {
        (len / 4, len / 2)
    } else {
        (len / 2, len)
    }
}

pub open spec fn fft_band_level(s: Seq<u8>, band: int) -> int {
    byte_band_level(s, fft_band(s.len() as int, band).0, fft_band(s.len() as int, band).1)
}

/// Sum of `(t[i] - 128)^2` over the first `n` time-domain bytes.
pub open spec fn centered_sq_sum(t: Seq<u8>, n: int) -> int
    decreases n,
{
    if n <= 0 { 0 } else { centered_sq_sum(t, n - 1) + (t[n - 1] - 128) * (t[n - 1] - 128) }
}

/// Largest `|t[i] - 128|` over the first `n` time-domain bytes.
pub open spec fn max_centered(t: Seq<u8>, n: int) -> int
    decreases n,
{
    if n <= 0 { 0 } else { max_int(max_centered(t, n - 1), abs(t[n - 1] - 128)) }
}

/// Mean square of the centered bytes, scaled so that its square root is the
/// RMS level in units of `1 / ONE`.
pub open spec fn byte_mean_sq(t: Seq<u8>) -> int {
    centered_sq_sum(t, t.len() as int) * (ONE * ONE) / (t.len() as int * 16384)
}

/// Peak of the centered bytes normalized by 128, 0 when there are none.
pub open spec fn byte_peak(t: Seq<u8>) -> int {
    max_centered(t, t.len() as int) * ONE / 128
}

/// Sum of `i * s[i]` over the first `n` bins.
pub open spec fn weighted_bins(s: Seq<u8>, n: int) -> int
    decreases n,
{
    if n <= 0 { 0 } else { weighted_bins(s, n - 1) + (n - 1) * s[n - 1] }
}

/// Energy-weighted mean bin index divided by the bin count.
pub open spec fn centroid_of(s: Seq<u8>) -> int {
    weighted_bins(s, s.len() as int) * ONE / (sum_bytes(s, 0, s.len() as int) * s.len() as int)
}

/// Byte magnitudes on the 0..=255 scale in units of `1 / ONE`.
pub open spec fn byte_magnitudes(s: Seq<u8>) -> Seq<u64> {
    Seq::new(s.len(), |i: int| (s[i] * ONE) as u64)
}

/// Time-domain bytes centered on 128 and scaled to full scale `ONE`.
pub open spec fn centered_amplitudes(t: Seq<u8>) -> Seq<i64> {
    Seq::new(t.len(), |i: int| (t[i] * ONE / 128 - ONE) as i64)
}

/// Every sample lies in [-1, 1].
pub open spec fn samples_in_unit(s: Seq<i32>) -> bool {
    forall|i: int| 0 <= i < s.len() ==> -(ONE as int) <= #[trigger] s[i] <= ONE
}

impl AudioAnalysis {
    /// Band energies, levels, the spectral centroid and the smoothed values
    /// all lie in [0, 1].
    pub open spec fn in_unit(&self) -> bool {
        &&& self.bass <= ONE
        &&& self.low_mid <= ONE
        &&& self.mid <= ONE
        &&& self.high_mid <= ONE
        &&& self.treble <= ONE
        &&& self.volume <= ONE
        &&& self.peak <= ONE
        &&& self.beat_intensity <= ONE
        &&& self.spectral_centroid <= ONE
        &&& self.smooth_bass <= ONE
        &&& self.smooth_mid <= ONE
        &&& self.smooth_treble <= ONE
        &&& self.smooth_volume <= ONE
    }

    /// Silent state with 256-entry display arrays.
    pub fn new() -> (r: Self)
        ensures
            r.in_unit(),
            r.bass == 0 && r.low_mid == 0 && r.mid == 0 && r.high_mid == 0 && r.treble == 0,
            r.volume == 0 && r.peak == 0 && !r.beat && r.beat_intensity == 0,
            r.spectral_centroid == 0 && r.spectral_flux == 0,
            r.smooth_bass == 0 && r.smooth_mid == 0 && r.smooth_treble == 0,
            r.smooth_volume == 0,
            r.frequency_data@ == Seq::new(256, |i: int| 0u64),
            r.time_data@ == Seq::new(256, |i: int| 0i64),
    {
        let frequency_data: Vec<u64> = vec![0u64; 256];
        let time_data: Vec<i64> = vec![0i64; 256];
        assert(frequency_data@ =~= Seq::new(256, |i: int| 0u64));
        assert(time_data@ =~= Seq::new(256, |i: int| 0i64));
        AudioAnalysis {
            bass: 0,
            low_mid: 0,
            mid: 0,
            high_mid: 0,
            treble: 0,
            volume: 0,
            peak: 0,
            beat: false,
            beat_intensity: 0,
            spectral_centroid: 0,
            spectral_flux: 0,
            smooth_bass: 0,
            smooth_mid: 0,
            smooth_treble: 0,
            smooth_volume: 0,
            frequency_data,
            time_data,
        }
    }
}

impl AudioAnalysis {
    /// Extracts the features of one raw mono window, samples at full scale
    /// `ONE`. An empty window leaves every field as it was.
    pub fn update_from_cpal(&mut self, buffer: &[i32])
        requires
            buffer@.len() <= MAX_FRAME_LEN,
        ensures
            buffer@.len() == 0 ==> *final(self) == *old(self),
            buffer@.len() > 0 ==> {
                let s = buffer@;
                let n = s.len() as int;
                let o = *old(self);
                let f = *final(self);
                &&& f.time_data@.len() == n
                &&& forall|i: int| 0 <= i < n ==> f.time_data@[i] == s[i] as i64
                &&& is_isqrt(sum_sq(s, n) / n, f.volume as int)
                &&& f.peak == max_abs(s, n)
                &&& f.frequency_data@ == rectified(s)
                &&& f.spectral_flux == pos_diff_sum(rectified(s), o.frequency_data@, n)
                &&& f.bass == raw_band_level(s, 0)
                &&& f.low_mid == raw_band_level(s, 1)
                &&& f.mid == raw_band_level(s, 2)
                &&& f.high_mid == raw_band_level(s, 3)
                &&& f.treble == raw_band_level(s, 4)
                &&& f.beat == beat_fires(f.bass as int, o.smooth_bass as int, RAW_BASS_FLOOR as int)
                &&& f.beat_intensity == beat_strength(
                    f.bass as int,
                    o.smooth_bass as int,
                    RAW_BASS_FLOOR as int,
                )
                &&& f.spectral_centroid == o.spectral_centroid
                &&& f.smooth_bass == ema(o.smooth_bass as int, f.bass as int, LIVE_SMOOTHING as int)
                &&& f.smooth_mid == ema(o.smooth_mid as int, f.mid as int, LIVE_SMOOTHING as int)
                &&& f.smooth_treble == ema(
                    o.smooth_treble as int,
                    f.treble as int,
                    LIVE_SMOOTHING as int,
                )
                &&& f.smooth_volume == ema(
                    o.smooth_volume as int,
                    f.volume as int,
                    LIVE_SMOOTHING as int,
                )
            },
            old(self).in_unit() && samples_in_unit(buffer@) ==> final(self).in_unit(),
    {
        let len = buffer.len();
        if len == 0 {
            return;
        }
        let ghost s = buffer@;
        self.time_data = widen(buffer);

        let sq = sum_sq_all(buffer);
        let mean_sq = sq / (len as u128);
        assert(mean_sq <= 0x4000_0000_0000_0000) by (nonlinear_arith)
            requires sq <= len * 0x4000_0000_0000_0000, len > 0, mean_sq == sq / (len as u128);
        let rms = isqrt(mean_sq as u64);
        self.volume = rms;
        self.peak = max_abs_all(buffer);

        let new_freq = rectify(buffer);
        let flux = pos_diff_total(&new_freq, &self.frequency_data, len);
        // at most 255 * ONE per bin: the rise is never more than the new value
        proof { lemma_pos_diff_rectified(s, self.frequency_data@, len as int); }
        assert(flux <= 0xffff_ffff_ffff_ffff) by (nonlinear_arith)
            requires flux <= len * (255 * ONE), len <= MAX_FRAME_LEN;
        self.spectral_flux = flux as u64;
        self.frequency_data = new_freq;

        let b = len / 8;
        let bass = mean_abs_range(buffer, 0, if b > 1 { b } else { 1 });
        let low_mid = mean_abs_range(buffer, b, if 2 * b > b + 1 { 2 * b } else { b + 1 });
        let mid = mean_abs_range(buffer, 2 * b, if 4 * b > 2 * b + 1 { 4 * b } else { 2 * b + 1 });
        let high_mid = mean_abs_range(buffer, 4 * b, if 6 * b < len { 6 * b } else { len });
        let treble = mean_abs_range(buffer, 6 * b, len);

        let prev_smooth_bass = self.smooth_bass;
        self.bass = bass;
        self.low_mid = low_mid;
        self.mid = mid;
        self.high_mid = high_mid;
        self.treble = treble;
        self.beat = bass > prev_smooth_bass && bass - prev_smooth_bass > BEAT_JUMP
            && bass > RAW_BASS_FLOOR;
        self.beat_intensity = if self.beat {
            let jump = bass - prev_smooth_bass;
            if jump < ONE { jump } else { ONE }
        } else {
            0
        };
        self.smooth_volume = smooth(self.smooth_volume, rms, LIVE_SMOOTHING);
        self.smooth_bass = smooth(prev_smooth_bass, bass, LIVE_SMOOTHING);
        self.smooth_mid = smooth(self.smooth_mid, mid, LIVE_SMOOTHING);
        self.smooth_treble = smooth(self.smooth_treble, treble, LIVE_SMOOTHING);

        proof {
            if samples_in_unit(s) {
                let n = len as int;
                lemma_sum_sq_bound(s, n);
                let m = sum_sq(s, n) / n;
                assert(m <= ONE * ONE) by (nonlinear_arith)
                    requires sum_sq(s, n) <= n * (ONE * ONE), n > 0, m == sum_sq(s, n) / n;
                let r = rms as int;
                assert(r <= ONE) by (nonlinear_arith)
                    requires r * r <= m, m <= ONE * ONE, r >= 0;
                lemma_max_abs_bound(s, n);
                let bb = b as int;
                lemma_mean_abs_bound(s, 0, max_int(bb, 1));
                lemma_mean_abs_bound(s, bb, max_int(2 * bb, bb + 1));
                lemma_mean_abs_bound(s, 2 * bb, max_int(4 * bb, 2 * bb + 1));
                lemma_mean_abs_bound(s, 4 * bb, min_int(6 * bb, n));
                lemma_mean_abs_bound(s, 6 * bb, n);
            }
        }
    }

    /// Extracts the features of one frame of byte spectra: `frequency_data`
    /// holds bin magnitudes and `time_data` time-domain samples, both on the
    /// 0..=255 scale. An empty spectrum leaves every field as it was.
    pub fn update_from_fft(&mut self, frequency_data: &[u8], time_data: &[u8])
        requires
            frequency_data@.len() <= MAX_FRAME_LEN,
            time_data@.len() <= MAX_FRAME_LEN,
        ensures
            frequency_data@.len() == 0 || time_data@.len() == 0 ==> *final(self) == *old(self),
            frequency_data@.len() > 0 && time_data@.len() > 0 ==> {
                let s = frequency_data@;
                let t = time_data@;
                let n = s.len() as int;
                let o = *old(self);
                let f = *final(self);
                &&& f.bass == fft_band_level(s, 0)
                &&& f.low_mid == fft_band_level(s, 1)
                &&& f.mid == fft_band_level(s, 2)
                &&& f.high_mid == fft_band_level(s, 3)
                &&& f.treble == fft_band_level(s, 4)
                &&& is_isqrt(byte_mean_sq(t), f.volume as int)
                &&& f.peak == byte_peak(t)
                &&& f.beat == beat_fires(f.bass as int, o.smooth_bass as int, BYTE_BASS_FLOOR as int)
                &&& f.beat_intensity == beat_strength(
                    f.bass as int,
                    o.smooth_bass as int,
                    BYTE_BASS_FLOOR as int,
                )
                &&& sum_bytes(s, 0, n) > 0 ==> f.spectral_centroid == centroid_of(s)
                &&& sum_bytes(s, 0, n) == 0 ==> f.spectral_centroid == o.spectral_centroid
                &&& f.spectral_flux == pos_diff_sum(
                    byte_magnitudes(s),
                    o.frequency_data@,
                    min_int(n, o.frequency_data@.len() as int),
                ) / (n * 255)
                &&& f.frequency_data@ == byte_magnitudes(s)
                &&& f.time_data@ == centered_amplitudes(t)
                &&& f.smooth_bass == ema(o.smooth_bass as int, f.bass as int, LIVE_SMOOTHING as int)
                &&& f.smooth_mid == ema(o.smooth_mid as int, f.mid as int, LIVE_SMOOTHING as int)
                &&& f.smooth_treble == ema(
                    o.smooth_treble as int,
                    f.treble as int,
                    LIVE_SMOOTHING as int,
                )
                &&& f.smooth_volume == ema(
                    o.smooth_volume as int,
                    f.volume as int,
                    LIVE_SMOOTHING as int,
                )
            },
            old(self).in_unit() ==> final(self).in_unit(),
    {
        let len = frequency_data.len();
        if len == 0 || time_data.len() == 0 {
            return;
        }
        let ghost s = frequency_data@;
        let ghost t = time_data@;
        let bass = byte_band_range(frequency_data, 0, len / 16);
        let low_mid = byte_band_range(frequency_data, len / 16, len / 8);
        let mid = byte_band_range(frequency_data, len / 8, len / 4);
        let high_mid = byte_band_range(frequency_data, len / 4, len / 2);
        let treble = byte_band_range(frequency_data, len / 2, len);

        let (rms, peak) = centered_levels(time_data);

        let prev_smooth_bass = self.smooth_bass;
        self.beat = bass > prev_smooth_bass && bass - prev_smooth_bass > BEAT_JUMP
            && bass > BYTE_BASS_FLOOR;
        self.beat_intensity = if self.beat {
            let jump = bass - prev_smooth_bass;
            if jump < ONE { jump } else { ONE }
        } else {
            0
        };

        let (weighted, total) = weighted_and_total(frequency_data);
        if total > 0 {
            proof { lemma_weighted_le(s, len as int); }
            assert(weighted * ONE <= (MAX_FRAME_LEN * MAX_FRAME_LEN * 255) * ONE
                && total * len <= MAX_FRAME_LEN * 255 * MAX_FRAME_LEN) by (nonlinear_arith)
                requires
                    weighted <= len * len * 255,
                    total <= len * 255,
                    len <= MAX_FRAME_LEN,
            ;
            assert((total as int) * (len as int) > 0) by (nonlinear_arith)
                requires total > 0, len > 0;
            assert(weighted * (ONE as u128) / (total * (len as u128)) <= ONE) by (nonlinear_arith)
                requires
                    weighted <= total * len,
                    total > 0,
                    len > 0,
            ;
            self.spectral_centroid = (weighted * (ONE as u128) / (total * (len as u128))) as u64;
        }

        let mags = magnitudes(frequency_data);
        // only the bins that both frames have are compared
        let common = if self.frequency_data.len() < len { self.frequency_data.len() } else { len };
        let rise = pos_diff_total(&mags, &self.frequency_data, common);
        proof { lemma_pos_diff_magnitudes(s, self.frequency_data@, common as int); }
        assert(rise as int / (len as int * 255) <= ONE) by (nonlinear_arith)
            requires rise <= len * (255 * ONE), len > 0;
        self.spectral_flux = (rise / ((len as u128) * 255)) as u64;
        self.frequency_data = mags;
        self.time_data = centered(time_data);

        self.smooth_bass = smooth(prev_smooth_bass, bass, LIVE_SMOOTHING);
        self.smooth_mid = smooth(self.smooth_mid, mid, LIVE_SMOOTHING);
        self.smooth_treble = smooth(self.smooth_treble, treble, LIVE_SMOOTHING);
        self.smooth_volume = smooth(self.smooth_volume, rms, LIVE_SMOOTHING);
        self.bass = bass;
        self.low_mid = low_mid;
        self.mid = mid;
        self.high_mid = high_mid;
        self.treble = treble;
        self.volume = rms;
        self.peak = peak;
    }
}

impl AudioAnalysis {
    /// Takes one frame of the synthetic demo signal: levels follow the beat
    /// envelope and the oscillators, a beat fires above an envelope of 0.8,
    /// and the smoothed values move with the slower demo coefficient. The
    /// display arrays are left to the caller.
    pub fn apply_demo_signal(&mut self, signal: &DemoSignal)
        requires
            signal.valid(),
        ensures
            ({
                let o = *old(self);
                let f = *final(self);
                let env = signal.beat_envelope as int;
                &&& f.bass == wave_level(3000, env, 5000)
                &&& f.low_mid == wave_level(1000, signal.low_mid_wave as int, 1500)
                &&& f.mid == wave_level(1000, signal.mid_wave as int, 2000)
                &&& f.high_mid == wave_level(500, signal.high_mid_wave as int, 1500)
                &&& f.treble == wave_level(500, signal.treble_wave as int, 1000)
                &&& f.volume == wave_level(4000, env, 3000)
                &&& f.peak == f.volume * 12 / 10
                &&& f.beat == (env > 8000)
                &&& f.beat_intensity == if env > 8000 { env } else { 0 }
                &&& f.spectral_centroid == wave_level(2000, signal.centroid_wave as int, 3000)
                &&& f.spectral_flux == env * 5000 / ONE as int
                &&& f.smooth_bass == ema(o.smooth_bass as int, f.bass as int, DEMO_SMOOTHING as int)
                &&& f.smooth_mid == ema(o.smooth_mid as int, f.mid as int, DEMO_SMOOTHING as int)
                &&& f.smooth_treble == ema(
                    o.smooth_treble as int,
                    f.treble as int,
                    DEMO_SMOOTHING as int,
                )
                &&& f.smooth_volume == ema(
                    o.smooth_volume as int,
                    f.volume as int,
                    DEMO_SMOOTHING as int,
                )
                &&& f.frequency_data == o.frequency_data
                &&& f.time_data == o.time_data
            }),
            old(self).in_unit() ==> final(self).in_unit(),
    {
        let env = signal.beat_envelope;
        self.bass = 3000 + env * 5000 / ONE;
        self.low_mid = 1000 + signal.low_mid_wave * 1500 / ONE;
        self.mid = 1000 + signal.mid_wave * 2000 / ONE;
        self.high_mid = 500 + signal.high_mid_wave * 1500 / ONE;
        self.treble = 500 + signal.treble_wave * 1000 / ONE;
        self.volume = 4000 + env * 3000 / ONE;
        self.peak = self.volume * 12 / 10;
        self.beat = env > 8000;
        self.beat_intensity = if self.beat { env } else { 0 };
        self.spectral_centroid = 2000 + signal.centroid_wave * 3000 / ONE;
        self.spectral_flux = env * 5000 / ONE;
        self.smooth_bass = smooth(self.smooth_bass, self.bass, DEMO_SMOOTHING);
        self.smooth_mid = smooth(self.smooth_mid, self.mid, DEMO_SMOOTHING);
        self.smooth_treble = smooth(self.smooth_treble, self.treble, DEMO_SMOOTHING);
        self.smooth_volume = smooth(self.smooth_volume, self.volume, DEMO_SMOOTHING);
    }
}

/// Spectral flux, the summed positive rises between two snapshots, is never
/// negative.
pub proof fn lemma_flux_nonneg(cur: Seq<u64>, prev: Seq<u64>, n: int)
    ensures
        pos_diff_sum(cur, prev, n) >= 0,
    decreases n,
{
    if n > 0 {
        lemma_flux_nonneg(cur, prev, n - 1);
    }
}

/// Mean magnitude of `s[lo..hi]` normalized by 255.
fn byte_band_range(s: &[u8], lo: usize, hi: usize) -> (r: u64)
    requires
        lo <= hi <= s@.len(),
    ensures
        r == byte_band_level(s@, lo as int, hi as int),
        r <= ONE,
{
    if hi == lo {
        return 0;
    }
    let mut acc: u128 = 0;
    let mut i: usize = lo;
    while i < hi
        invariant
            lo <= i <= hi <= s@.len(),
            acc == sum_bytes(s@, lo as int, i as int),
            acc <= (i - lo) * 255,
        decreases hi - i,
    {
        acc = acc + s[i] as u128;
        i = i + 1;
    }
    let n = (hi - lo) as u128;
    assert(acc * ONE <= n * 255 * ONE && n * 255 * ONE <= 0xffff_ffff_ffff_ffff * 255 * ONE)
        by (nonlinear_arith)
        requires acc <= n * 255, n <= 0xffff_ffff_ffff_ffffu128;
    assert(acc * (ONE as u128) / (n * 255) <= ONE) by (nonlinear_arith)
        requires acc <= n * 255, n > 0;
    (acc * (ONE as u128) / (n * 255)) as u64
}

/// RMS level and peak of centered time-domain bytes.
fn centered_levels(t: &[u8]) -> (r: (u64, u64))
    requires
        0 < t@.len() <= MAX_FRAME_LEN,
    ensures
        is_isqrt(byte_mean_sq(t@), r.0 as int),
        r.1 == byte_peak(t@),
        r.0 <= ONE,
        r.1 <= ONE,
{
    let mut sq: u128 = 0;
    let mut m: u64 = 0;
    let mut i: usize = 0;
    while i < t.len()
        invariant
            i <= t@.len() <= MAX_FRAME_LEN,
            sq == centered_sq_sum(t@, i as int),
            sq <= i * 16384,
            m == max_centered(t@, i as int),
            m <= 128,
        decreases t@.len() - i,
    {
        let x = t[i] as u64;
        let c: u64 = if x >= 128 { x - 128 } else { 128 - x };
        assert(c * c == (t@[i as int] - 128) * (t@[i as int] - 128) && c * c <= 16384)
            by (nonlinear_arith)
            requires c == abs(t@[i as int] - 128), c <= 128;
        sq = sq + (c * c) as u128;
        if c > m {
            m = c;
        }
        i = i + 1;
    }
    let n = t.len() as u128;
    assert(sq * 100_000_000 <= 0x1_0000_0000 * 16384 * 100_000_000 && n * 16384 > 0)
        by (nonlinear_arith)
        requires sq <= n * 16384, n <= 0x1_0000_0000, n > 0;
    let mean = sq * ((ONE * ONE) as u128) / (n * 16384);
    assert(mean <= ONE * ONE) by (nonlinear_arith)
        requires sq <= n * 16384, n > 0, mean == sq * ((ONE * ONE) as u128) / (n * 16384);
    let rms = isqrt(mean as u64);
    assert(rms <= ONE) by (nonlinear_arith)
        requires rms * rms <= mean, mean <= ONE * ONE;
    (rms, m * ONE / 128)
}

/// `sum i * s[i]` and `sum s[i]` over the spectrum.
fn weighted_and_total(s: &[u8]) -> (r: (u128, u128))
    requires
        s@.len() <= MAX_FRAME_LEN,
    ensures
        r.0 == weighted_bins(s@, s@.len() as int),
        r.1 == sum_bytes(s@, 0, s@.len() as int),
        r.0 <= s@.len() * s@.len() * 255,
        r.1 <= s@.len() * 255,
{
    let mut w: u128 = 0;
    let mut total: u128 = 0;
    let mut i: usize = 0;
    while i < s.len()
        invariant
            i <= s@.len() <= MAX_FRAME_LEN,
            w == weighted_bins(s@, i as int),
            total == sum_bytes(s@, 0, i as int),
            w <= i * i * 255,
            total <= i * 255,
        decreases s@.len() - i,
    {
        let x = s[i] as u128;
        assert(w + (i as u128) * x <= (i + 1) * (i + 1) * 255
            && (i as int) * (x as int) <= MAX_FRAME_LEN * 255
            && (i + 1) * (i + 1) * 255 <= (MAX_FRAME_LEN + 1) * (MAX_FRAME_LEN + 1) * 255)
            by (nonlinear_arith)
            requires w <= i * i * 255, x <= 255, i < MAX_FRAME_LEN;
        w = w + (i as u128) * x;
        total = total + x;
        i = i + 1;
    }
    (w, total)
}

/// `sum i * s[i] <= (n - 1) * sum s[i] <= n * sum s[i]`.
proof fn lemma_weighted_le(s: Seq<u8>, n: int)
    requires
        0 <= n <= s.len(),
    ensures
        weighted_bins(s, n) <= sum_bytes(s, 0, n) * n,
        sum_bytes(s, 0, n) >= 0,
    decreases n,
{
    if n > 0 {
        lemma_weighted_le(s, n - 1);
        let w = weighted_bins(s, n - 1);
        let t = sum_bytes(s, 0, n - 1);
        let x = s[n - 1] as int;
        assert(w + (n - 1) * x <= (t + x) * n) by (nonlinear_arith)
            requires w <= t * (n - 1), t >= 0, x >= 0, n >= 1;
    }
}

proof fn lemma_pos_diff_magnitudes(s: Seq<u8>, prev: Seq<u64>, n: int)
    requires
        0 <= n <= s.len(),
    ensures
        0 <= pos_diff_sum(byte_magnitudes(s), prev, n) <= n * (255 * ONE),
        n <= s.len() ==> 0 <= n,
    decreases n,
{
    if n > 0 {
        lemma_pos_diff_magnitudes(s, prev, n - 1);
    }
}

fn magnitudes(s: &[u8]) -> (r: Vec<u64>)
    ensures
        r@ == byte_magnitudes(s@),
{
    let mut out: Vec<u64> = Vec::new();
    let mut i: usize = 0;
    while i < s.len()
        invariant
            i <= s@.len(),
            out@ == byte_magnitudes(s@).subrange(0, i as int),
        decreases s@.len() - i,
    {
        out.push(s[i] as u64 * ONE);
        i = i + 1;
        assert(out@ =~= byte_magnitudes(s@).subrange(0, i as int));
    }
    assert(out@ =~= byte_magnitudes(s@));
    out
}

fn centered(t: &[u8]) -> (r: Vec<i64>)
    ensures
        r@ == centered_amplitudes(t@),
{
    let mut out: Vec<i64> = Vec::new();
    let mut i: usize = 0;
    while i < t.len()
        invariant
            i <= t@.len(),
            out@ == centered_amplitudes(t@).subrange(0, i as int),
        decreases t@.len() - i,
    {
        out.push((t[i] as u64 * ONE / 128) as i64 - ONE as i64);
        i = i + 1;
        assert(out@ =~= centered_amplitudes(t@).subrange(0, i as int));
    }
    assert(out@ =~= centered_amplitudes(t@));
    out
}

/// Mean absolute amplitude of `buf[lo..hi]`, 0 for an empty range.
fn mean_abs_range(buf: &[i32], lo: usize, hi: usize) -> (r: u64)
    requires
        lo <= hi <= buf@.len(),
    ensures
        r == mean_abs(buf@, lo as int, hi as int),
        r <= 0x8000_0000,
{
    if hi == lo {
        return 0;
    }
    let mut acc: u128 = 0;
    let mut i: usize = lo;
    while i < hi
        invariant
            lo <= i <= hi <= buf@.len(),
            acc == sum_abs(buf@, lo as int, i as int),
            acc <= (i - lo) * 0x8000_0000,
        decreases hi - i,
    {
        let x = buf[i] as i64;
        let a: u64 = if x < 0 { (-x) as u64 } else { x as u64 };
        acc = acc + a as u128;
        i = i + 1;
    }
    let n = (hi - lo) as u128;
    assert(acc / n <= 0x8000_0000) by (nonlinear_arith)
        requires acc <= n * 0x8000_0000, n > 0;
    (acc / n) as u64
}

/// Sum of squares of all samples.
fn sum_sq_all(buf: &[i32]) -> (r: u128)
    requires
        buf@.len() <= MAX_FRAME_LEN,
    ensures
        r == sum_sq(buf@, buf@.len() as int),
        r <= buf@.len() * 0x4000_0000_0000_0000,
{
    let mut acc: u128 = 0;
    let mut i: usize = 0;
    while i < buf.len()
        invariant
            i <= buf@.len() <= MAX_FRAME_LEN,
            acc == sum_sq(buf@, i as int),
            acc <= i * 0x4000_0000_0000_0000,
        decreases buf@.len() - i,
    {
        let x = buf[i] as i64;
        let a: u64 = if x < 0 { (-x) as u64 } else { x as u64 };
        assert(a * a == x * x && a * a <= 0x4000_0000_0000_0000) by (nonlinear_arith)
            requires a == abs(x as int), a <= 0x8000_0000;
        acc = acc + (a as u128) * (a as u128);
        i = i + 1;
    }
    acc
}

/// Largest absolute amplitude of the window.
fn max_abs_all(buf: &[i32]) -> (r: u64)
    ensures
        r == max_abs(buf@, buf@.len() as int),
{
    let mut m: u64 = 0;
    let mut i: usize = 0;
    while i < buf.len()
        invariant
            i <= buf@.len(),
            m == max_abs(buf@, i as int),
        decreases buf@.len() - i,
    {
        let x = buf[i] as i64;
        let a: u64 = if x < 0 { (-x) as u64 } else { x as u64 };
        if a > m {
            m = a;
        }
        i = i + 1;
    }
    m
}

/// Rectified stand-in spectrum of the window.
fn rectify(buf: &[i32]) -> (r: Vec<u64>)
    ensures
        r@ == rectified(buf@),
{
    let mut out: Vec<u64> = Vec::new();
    let mut i: usize = 0;
    while i < buf.len()
        invariant
            i <= buf@.len(),
            out@ == rectified(buf@).subrange(0, i as int),
        decreases buf@.len() - i,
    {
        let x = buf[i] as i64;
        let a: u64 = if x < 0 { (-x) as u64 } else { x as u64 };
        let v: u64 = if a * 255 < 255 * ONE { a * 255 } else { 255 * ONE };
        out.push(v);
        i = i + 1;
        assert(out@ =~= rectified(buf@).subrange(0, i as int));
    }
    assert(out@ =~= rectified(buf@));
    out
}

/// Sum of positive rises from `prev` to `cur` over the first `upto` bins.
fn pos_diff_total(cur: &Vec<u64>, prev: &Vec<u64>, upto: usize) -> (r: u128)
    requires
        upto <= cur@.len() <= MAX_FRAME_LEN,
    ensures
        r == pos_diff_sum(cur@, prev@, upto as int),
        r <= upto * 0xffff_ffff_ffff_ffff,
{
    let mut acc: u128 = 0;
    let mut i: usize = 0;
    while i < upto
        invariant
            i <= upto <= cur@.len() <= MAX_FRAME_LEN,
            acc == pos_diff_sum(cur@, prev@, i as int),
            acc <= i * 0xffff_ffff_ffff_ffff,
        decreases upto - i,
    {
        let p: u64 = if i < prev.len() { prev[i] } else { 0 };
        if cur[i] > p {
            acc = acc + (cur[i] - p) as u128;
        }
        i = i + 1;
    }
    acc
}

/// Bounds on the raw-path sums when every sample lies in [-1, 1].
proof fn lemma_sum_abs_bound(s: Seq<i32>, lo: int, hi: int)
    requires
        samples_in_unit(s),
        0 <= lo <= hi <= s.len(),
    ensures
        sum_abs(s, lo, hi) <= (hi - lo) * ONE,
    decreases hi - lo,
{
    if hi > lo {
        lemma_sum_abs_bound(s, lo, hi - 1);
        assert(abs(s[hi - 1] as int) <= ONE);
    }
}

proof fn lemma_sum_sq_bound(s: Seq<i32>, n: int)
    requires
        samples_in_unit(s),
        0 <= n <= s.len(),
    ensures
        sum_sq(s, n) <= n * (ONE * ONE),
    decreases n,
{
    if n > 0 {
        lemma_sum_sq_bound(s, n - 1);
        let x = s[n - 1] as int;
        assert(-(ONE as int) <= x <= ONE);
        assert(x * x <= ONE * ONE) by (nonlinear_arith)
            requires -(ONE as int) <= x <= ONE;
    }
}

proof fn lemma_max_abs_bound(s: Seq<i32>, n: int)
    requires
        samples_in_unit(s),
        0 <= n <= s.len(),
    ensures
        max_abs(s, n) <= ONE,
    decreases n,
{
    if n > 0 {
        lemma_max_abs_bound(s, n - 1);
        assert(abs(s[n - 1] as int) <= ONE);
    }
}

proof fn lemma_mean_abs_bound(s: Seq<i32>, lo: int, hi: int)
    requires
        samples_in_unit(s),
        0 <= lo <= hi <= s.len(),
    ensures
        mean_abs(s, lo, hi) <= ONE,
{
    if hi > lo {
        lemma_sum_abs_bound(s, lo, hi);
        let t = sum_abs(s, lo, hi);
        assert(t / (hi - lo) <= ONE) by (nonlinear_arith)
            requires t <= (hi - lo) * ONE, hi - lo > 0;
    }
}

proof fn lemma_pos_diff_rectified(s: Seq<i32>, prev: Seq<u64>, n: int)
    requires
        0 <= n <= s.len(),
    ensures
        0 <= pos_diff_sum(rectified(s), prev, n) <= n * (255 * ONE),
    decreases n,
{
    if n > 0 {
        lemma_pos_diff_rectified(s, prev, n - 1);
    }
}

fn widen(buf: &[i32]) -> (r: Vec<i64>)
    ensures
        r@.len() == buf@.len(),
        forall|i: int| 0 <= i < buf@.len() ==> r@[i] == buf@[i] as i64,
{
    let mut out: Vec<i64> = Vec::new();
    let mut i: usize = 0;
    while i < buf.len()
        invariant
            i <= buf@.len(),
            out@.len() == i,
            forall|j: int| 0 <= j < i ==> out@[j] == buf@[j] as i64,
        decreases buf@.len() - i,
    {
        out.push(buf[i] as i64);
        i = i + 1;
    }
    out
}

} // verus!
