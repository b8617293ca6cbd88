//! The synthetic demo signal: a 2 Hz bass beat and slow oscillators, with
//! matching display arrays, for running without an audio source.
use vstd::prelude::*;
use crate::fixed::{ONE, muldiv, mul_div, lemma_muldiv_bound};
use crate::angle::{TWO_PI, spec_sin, sin_approx};
use crate::analysis::{AudioAnalysis, DemoSignal, MAX_FRAME_LEN, wave_level, DEMO_SMOOTHING};
use crate::fixed::ema;
use crate::ridgeline::TIME_LIMIT;

verus! {

/// `time * rate`, fixed point: the phase of an oscillator of `rate` radians
/// per second.
pub open spec fn phase(time: int, rate: int) -> int {
    time * rate / ONE as int
}

/// `1 + sin(time * rate)`, in [0, 2].
pub open spec fn wave(time: int, rate: int) -> int {
    ONE + spec_sin(phase(time, rate))
}

/// The beat envelope `((1 + sin(2 * tau * time)) / 2)^4`.
pub open spec fn envelope(time: int) -> int {
    let u = (ONE + spec_sin(phase(time, 2 * TWO_PI))) / 2;
    u * u / ONE as int * u / ONE as int * u / ONE as int
}

pub open spec fn spec_demo_signal(time: int) -> DemoSignal {
    DemoSignal {
        beat_envelope: envelope(time) as u64,
        low_mid_wave: wave(time, 15000) as u64,
        mid_wave: wave(time, 23000) as u64,
        high_mid_wave: wave(time, 37000) as u64,
        treble_wave: wave(time, 51000) as u64,
        centroid_wave: wave(time, 5000) as u64,
    }
}

fn wave_exec(time: u64, rate: u64) -> (r: u64)
    requires
        time <= TIME_LIMIT,
        rate <= 2 * TWO_PI,
    ensures
        r == wave(time as int, rate as int),
        r <= 2 * ONE,
{
    assert(time * rate <= TIME_LIMIT * (2 * TWO_PI)) by (nonlinear_arith)
        requires time <= TIME_LIMIT, rate <= 2 * TWO_PI;
    let p = (time * rate / ONE) as i64;
    (ONE as i64 + sin_approx(p)) as u64
}

/// The demo signal at `time` seconds.
pub fn demo_signal(time: u64) -> (r: DemoSignal)
    requires
        time <= TIME_LIMIT,
    ensures
        r == spec_demo_signal(time as int),
        r.valid(),
{
    let u = wave_exec(time, 2 * TWO_PI) / 2;
    assert(u * u / (ONE as int) * u / (ONE as int) * u / (ONE as int) <= ONE) by (nonlinear_arith)
        requires u <= ONE;
    assert(u * u / (ONE as int) <= ONE && u * u / (ONE as int) * u / (ONE as int) <= ONE) by (nonlinear_arith)
        requires u <= ONE;
    let env = u * u / ONE * u / ONE * u / ONE;
    DemoSignal {
        beat_envelope: env,
        low_mid_wave: wave_exec(time, 15000),
        mid_wave: wave_exec(time, 23000),
        high_mid_wave: wave_exec(time, 37000),
        treble_wave: wave_exec(time, 51000),
        centroid_wave: wave_exec(time, 5000),
    }
}

/// Demo spectrum bin `i` of `n` on the 0..=255 scale, in units of `1 / ONE`:
/// `(1 - i / n)^2 * bass * 200 + |sin(time * (10 + i / 2))| * 50`, truncated
/// to a whole byte value.
pub open spec fn demo_bin(n: int, i: int, bass: int, time: int) -> int {
    let f = ONE - i * ONE / n;
    let a = f * f / ONE as int * bass / ONE as int * 200 / ONE as int;
    let s = spec_sin(phase(time, 10 * ONE + 5000 * i) % (TWO_PI as int));
    let b = (if s < 0 { -s } else { s }) * 50 / ONE as int;
    (a + b) * ONE
}

/// Demo waveform sample `i` of `n`: `sin(tau * 4 * i / n + 10 * time)` at
/// half the volume, full scale `ONE`.
pub open spec fn demo_sample(n: int, i: int, volume: int, time: int) -> int {
    let arg = (i * ONE / n * (4 * TWO_PI) / ONE as int + phase(time, 10 * ONE)) % (TWO_PI as int);
    muldiv(spec_sin(arg), volume, 2 * ONE)
}

impl AudioAnalysis {
    /// One frame of the demo: the levels of `demo_signal(time)` (see
    /// `apply_demo_signal`), and display arrays of unchanged lengths filled
    /// with the demo spectrum and waveform.
    pub fn simulate_demo(&mut self, time: u64)
        requires
            time <= TIME_LIMIT,
            old(self).frequency_data@.len() <= MAX_FRAME_LEN,
            old(self).time_data@.len() <= MAX_FRAME_LEN,
        ensures
            ({
                let o = *old(self);
                let f = *final(self);
                let sig = spec_demo_signal(time as int);
                let env = sig.beat_envelope as int;
                &&& f.bass == wave_level(3000, env, 5000)
                &&& f.low_mid == wave_level(1000, sig.low_mid_wave as int, 1500)
                &&& f.mid == wave_level(1000, sig.mid_wave as int, 2000)
                &&& f.high_mid == wave_level(500, sig.high_mid_wave as int, 1500)
                &&& f.treble == wave_level(500, sig.treble_wave as int, 1000)
                &&& f.volume == wave_level(4000, env, 3000)
                &&& f.peak == f.volume * 12 / 10
                &&& f.beat == (env > 8000)
                &&& f.beat_intensity == if env > 8000 { env } else { 0 }
                &&& f.spectral_centroid == wave_level(2000, sig.centroid_wave as int, 3000)
                &&& f.spectral_flux == env * 5000 / ONE as int
                &&& f.smooth_bass == ema(o.smooth_bass as int, f.bass as int, DEMO_SMOOTHING as int)
                &&& f.smooth_mid == ema(o.smooth_mid as int, f.mid as int, DEMO_SMOOTHING as int)
                &&& f.smooth_treble == ema(o.smooth_treble as int, f.treble as int, DEMO_SMOOTHING as int)
                &&& f.smooth_volume == ema(o.smooth_volume as int, f.volume as int, DEMO_SMOOTHING as int)
                &&& f.frequency_data@.len() == o.frequency_data@.len()
                &&& forall|i: int|
                    0 <= i < f.frequency_data@.len() ==> #[trigger] f.frequency_data@[i] == demo_bin(
                        f.frequency_data@.len() as int,
                        i,
                        f.bass as int,
                        time as int,
                    )
                &&& f.time_data@.len() == o.time_data@.len()
                &&& forall|i: int|
                    0 <= i < f.time_data@.len() ==> #[trigger] f.time_data@[i] == demo_sample(
                        f.time_data@.len() as int,
                        i,
                        f.volume as int,
                        time as int,
                    )
            }),
            old(self).in_unit() ==> final(self).in_unit(),
    {
        let sig = demo_signal(time);
        self.apply_demo_signal(&sig);
        let spectrum = demo_spectrum(self.frequency_data.len(), self.bass, time);
        let wave = demo_wave(self.time_data.len(), self.volume, time);
        self.frequency_data = spectrum;
        self.time_data = wave;
    }
}

fn demo_spectrum(n: usize, bass: u64, time: u64) -> (r: Vec<u64>)
    requires
        n <= MAX_FRAME_LEN,
        bass <= ONE,
        time <= TIME_LIMIT,
    ensures
        r@.len() == n,
        forall|i: int| 0 <= i < n ==> #[trigger] r@[i] == demo_bin(n as int, i, bass as int, time as int),
{
    let mut out: Vec<u64> = Vec::new();
    let mut i: usize = 0;
    while i < n
        invariant
            n <= MAX_FRAME_LEN,
            bass <= ONE,
            time <= TIME_LIMIT,
            i <= n,
            out@.len() == i,
            forall|j: int| 0 <= j < i ==> #[trigger] out@[j] == demo_bin(n as int, j, bass as int, time as int),
        decreases n - i,
    {
        out.push(demo_bin_exec(n, i, bass, time));
        i = i + 1;
    }
    out
}

fn demo_wave(m: usize, volume: u64, time: u64) -> (r: Vec<i64>)
    requires
        m <= MAX_FRAME_LEN,
        volume <= ONE,
        time <= TIME_LIMIT,
    ensures
        r@.len() == m,
        forall|i: int| 0 <= i < m ==> #[trigger] r@[i] == demo_sample(m as int, i, volume as int, time as int),
{
    let mut out: Vec<i64> = Vec::new();
    let mut k: usize = 0;
    while k < m
        invariant
            m <= MAX_FRAME_LEN,
            volume <= ONE,
            time <= TIME_LIMIT,
            k <= m,
            out@.len() == k,
            forall|j: int| 0 <= j < k ==> #[trigger] out@[j] == demo_sample(m as int, j, volume as int, time as int),
        decreases m - k,
    {
        out.push(demo_sample_exec(m, k, volume, time));
        k = k + 1;
    }
    out
}

fn demo_bin_exec(n: usize, i: usize, bass: u64, time: u64) -> (r: u64)
    requires
        i < n <= MAX_FRAME_LEN,
        bass <= ONE,
        time <= TIME_LIMIT,
    ensures
        r == demo_bin(n as int, i as int, bass as int, time as int),
{
    assert((i as int) * (ONE as int) / (n as int) <= ONE) by (nonlinear_arith)
        requires i < n;
    let f = ONE - ((i as u64) * ONE / (n as u64));
    assert(f * f / (ONE as int) <= ONE && f * f / (ONE as int) * bass / (ONE as int) <= ONE) by (nonlinear_arith)
        requires f <= ONE, bass <= ONE;
    let a = f * f / ONE * bass / ONE * 200 / ONE;
    assert(a <= 200) by (nonlinear_arith)
        requires a == f * f / (ONE as int) * bass / (ONE as int) * 200 / (ONE as int), f * f / (ONE as int) * bass / (ONE as int) <= ONE;
    let rate: u128 = 10 * (ONE as u128) + 5000 * (i as u128);
    assert((time as int) * (rate as int) <= TIME_LIMIT * (10 * ONE + 5000 * MAX_FRAME_LEN)) by (nonlinear_arith)
        requires time <= TIME_LIMIT, rate == 10 * ONE + 5000 * i, i <= MAX_FRAME_LEN;
    let p = ((time as u128) * rate / (ONE as u128)) % (TWO_PI as u128);
    let s = sin_approx(p as i64);
    let sa: u64 = if s < 0 { (-s) as u64 } else { s as u64 };
    let b = sa * 50 / ONE;
    (a + b) * ONE
}

fn demo_sample_exec(m: usize, k: usize, volume: u64, time: u64) -> (r: i64)
    requires
        k < m <= MAX_FRAME_LEN,
        volume <= ONE,
        time <= TIME_LIMIT,
    ensures
        r == demo_sample(m as int, k as int, volume as int, time as int),
{
    assert((k as int) * (ONE as int) / (m as int) <= ONE) by (nonlinear_arith)
        requires k < m;
    let t = (k as u64) * ONE / (m as u64);
    assert(t * (4 * TWO_PI) <= ONE * (4 * TWO_PI) && time * (10 * ONE) <= TIME_LIMIT * (10 * ONE))
        by (nonlinear_arith)
        requires t <= ONE, time <= TIME_LIMIT;
    let p = (t * (4 * TWO_PI) / ONE + time * (10 * ONE) / ONE) % TWO_PI;
    let s = sin_approx(p as i64);
    proof { lemma_muldiv_bound(s as int, volume as int, 2 * ONE, ONE as int, ONE as int); }
    mul_div(s, volume as i64, 2 * ONE)
}

} // verus!
