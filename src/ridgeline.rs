//! The ridgeline renderer: a stack of horizontal lines, one per frequency
//! sub-range, with per-line temporal smoothing and a faux-perspective that
//! shrinks and raises farther lines.
use vstd::prelude::*;
use crate::fixed::{ONE, abs, ema, min_int, max_int, scale_trunc, smooth, mul_div_trunc, muldiv, mul_div, lemma_muldiv_bound};
use crate::angle::{PI, TWO_PI, spec_sin, spec_cos, sin_approx, cos_approx};
use crate::geometry::Point;
use crate::analysis::{AudioAnalysis, MAX_FRAME_LEN};
use crate::config::{VisualizerConfig, PARAM_LIMIT};
use crate::geometry::{Rgba, Rect};

verus! {

/// Thinnest line, 0.3 pixels.
pub const MIN_THICKNESS: i64 = 3000;

/// Faintest line alpha.
pub const MIN_ALPHA: u64 = 40;

/// Largest smoothed amplitude a line can reach under a bounded configuration.
pub const AMP_LIMIT: u64 = ONE + 3 * PARAM_LIMIT;

/// Largest time, in seconds of `1 / ONE`, that the ridgeline animation takes.
pub const TIME_LIMIT: u64 = 0x10_0000_0000;

/// Largest rotation of the stack, 3600 degrees either way.
pub const DEG_LIMIT: i64 = 36_000_000;

/// Largest line length and zoom factor, 100.0.
pub const STRETCH_LIMIT: u64 = 100 * ONE;

/// Largest coordinate of the drawing rectangle.
pub const VIEW_LIMIT: i64 = 0x100_0000_0000;

/// One line of the stack for this frame.
#[derive(Clone, Copy, Debug, PartialEq, Eq, Structural)]
pub struct RidgeLine {
    /// Depth fraction `i / line_count`.
    pub z: u64,
    /// First and one-past-last frequency bin of the line.
    pub bin_start: usize,
    pub bin_end: usize,
    /// Smoothed amplitude.
    pub amplitude: u64,
    /// `1 - z * perspective`: nearer lines are larger.
    pub scale: i64,
    pub thickness: i64,
    pub color: Rgba,
    /// Vertical position of the line's rest state.
    pub baseline: i64,
    /// Vertical amplitude of the line in pixels.
    pub amp_scale: i64,
}

/// Persistent per-line smoothing memory: grows with the line count, never
/// shrinks.
pub struct UnknownPleasuresVisualizer {
    pub last_amplitudes: Vec<u64>,
}

impl VisualizerConfig {
    pub open spec fn ridge_ok(&self) -> bool {
        &&& self.up_line_thickness <= PARAM_LIMIT
        &&& self.up_perspective <= PARAM_LIMIT
        &&& self.up_vertical_scale <= PARAM_LIMIT
        &&& self.up_bass_mult <= PARAM_LIMIT
        &&& self.up_mid_mult <= PARAM_LIMIT
        &&& self.up_treble_mult <= PARAM_LIMIT
        &&& self.up_line_length <= STRETCH_LIMIT
        &&& self.up_zoom <= STRETCH_LIMIT
        &&& -DEG_LIMIT <= self.up_rotation_deg <= DEG_LIMIT
    }
}

/// Previous amplitude of line `i`, 0 for a line not seen before.
pub open spec fn padded(last: Seq<u64>, i: int) -> int {
    if 0 <= i < last.len() { last[i] as int } else { 0 }
}

/// Bin range of line `i` from the curve's edges: the start is clamped into the
/// spectrum and the range always holds at least one bin.
pub open spec fn line_bins(edges: Seq<usize>, i: int, freq_len: int) -> (int, int) {
    let start = min_int(edges[i] as int, freq_len - 1);
    let end = min_int(edges[i + 1] as int, freq_len);
    if end <= start { (start, min_int(start + 1, freq_len)) } else { (start, end) }
}

pub open spec fn sum_mags(f: Seq<u64>, lo: int, hi: int) -> int
    decreases hi - lo,
{
    if hi <= lo { 0 } else { sum_mags(f, lo, hi - 1) + f[hi - 1] }
}

/// Mean magnitude of `f[lo..hi]` normalized to [0, 1].
pub open spec fn mean_level(f: Seq<u64>, lo: int, hi: int) -> int {
    if hi <= lo { 0 } else { sum_mags(f, lo, hi) / ((hi - lo) * 255) }
}

/// Gain from the smoothed bands: `1 + bass_mult * bass + mid_mult * mid +
/// treble_mult * treble`.
pub open spec fn band_gain(c: VisualizerConfig, a: AudioAnalysis) -> int {
    ONE + a.smooth_bass * c.up_bass_mult / ONE as int + a.smooth_mid * c.up_mid_mult / ONE as int
        + a.smooth_treble * c.up_treble_mult / ONE as int
}

/// Line `i` of `n`, before smoothing: its bins and its boosted amplitude.
pub open spec fn raw_amplitude(a: AudioAnalysis, c: VisualizerConfig, edges: Seq<usize>, i: int) -> int {
    let f = a.frequency_data@;
    if f.len() == 0 {
        0
    } else {
        let (lo, hi) = line_bins(edges, i, f.len() as int);
        mean_level(f, lo, hi) * band_gain(c, a) / ONE as int
    }
}

pub open spec fn smoothing_of(c: VisualizerConfig) -> int {
    min_int(c.up_smoothing as int, ONE as int)
}

/// The line that index `i` of `n` becomes, given its smoothed amplitude.
pub open spec fn spec_line(
    a: AudioAnalysis,
    c: VisualizerConfig,
    rect: Rect,
    edges: Seq<usize>,
    i: int,
    n: int,
    amp: int,
) -> RidgeLine {
    let f = a.frequency_data@;
    let fl = max_int(f.len() as int, 1);
    let z = i * ONE / n;
    let scale = ONE - z * c.up_perspective / ONE as int;
    let h = rect.max.y - rect.min.y;
    let alpha = max_int(200 * (ONE - z) / ONE as int, MIN_ALPHA as int);
    RidgeLine {
        z: z as u64,
        bin_start: line_bins(edges, i, fl).0 as usize,
        bin_end: line_bins(edges, i, fl).1 as usize,
        amplitude: amp as u64,
        scale: scale as i64,
        thickness: max_int(scale_trunc(scale, c.up_line_thickness as int, ONE as int), MIN_THICKNESS as int) as i64,
        color: if c.up_monochrome {
            Rgba { r: 255, g: 255, b: 255, a: alpha as u8 }
        } else {
            Rgba { r: c.base_color.r, g: c.base_color.g, b: c.base_color.b, a: alpha as u8 }
        },
        baseline: (rect.max.y - i * (h * 10 / (9 * n)) - z * h / ONE as int / 5) as i64,
        amp_scale: scale_trunc(scale, c.up_vertical_scale * 100 * amp / ONE as int, ONE as int) as i64,
    }
}

/// Ranges of a laid-out line that the point computation relies on.
pub open spec fn line_bounded(l: RidgeLine) -> bool {
    &&& l.z <= ONE
    &&& -10_000_000_000_000_000 <= l.amp_scale <= 10_000_000_000_000_000
    &&& -0x1000_0000_0000 <= l.baseline <= 0x1000_0000_0000
}

pub open spec fn rect_ok(r: Rect) -> bool {
    &&& -VIEW_LIMIT <= r.min.x <= r.max.x <= VIEW_LIMIT
    &&& -VIEW_LIMIT <= r.min.y <= r.max.y <= VIEW_LIMIT
}

/// Every magnitude is on the documented 0..=255 scale.
pub open spec fn spectrum_ok(f: Seq<u64>) -> bool {
    &&& f.len() <= MAX_FRAME_LEN
    &&& forall|j: int| 0 <= j < f.len() ==> #[trigger] f[j] <= 255 * ONE
}

fn mean_level_exec(f: &Vec<u64>, lo: usize, hi: usize) -> (r: u64)
    requires
        lo < hi <= f@.len(),
        spectrum_ok(f@),
    ensures
        r == mean_level(f@, lo as int, hi as int),
        r <= ONE,
{
    let mut acc: u128 = 0;
    let mut i: usize = lo;
    while i < hi
        invariant
            lo <= i <= hi <= f@.len(),
            spectrum_ok(f@),
            acc == sum_mags(f@, lo as int, i as int),
            acc <= (i - lo) * (255 * ONE),
            hi <= MAX_FRAME_LEN,
        decreases hi - i,
    {
        assert(f@[i as int] <= 255 * ONE);
        assert((i + 1 - lo) * (255 * ONE) == (i - lo) * (255 * ONE) + 255 * ONE
            && (i - lo) * (255 * ONE) <= MAX_FRAME_LEN * 2550000) by (nonlinear_arith)
            requires i < hi, lo <= i, i <= MAX_FRAME_LEN;
        acc = acc + f[i] as u128;
        i = i + 1;
    }
    let n = (hi - lo) as u128;
    assert(acc as int / (n as int * 255) <= ONE) by (nonlinear_arith)
        requires acc <= n * (255 * ONE), n > 0;
    (acc / (n * 255)) as u64
}

fn bins_of(edges: &Vec<usize>, i: usize, fl: usize) -> (r: (usize, usize))
    requires
        i + 1 < edges@.len(),
        fl >= 1,
    ensures
        r.0 == line_bins(edges@, i as int, fl as int).0,
        r.1 == line_bins(edges@, i as int, fl as int).1,
        r.0 < r.1 <= fl,
{
    let len = edges.len();
    assert(i + 1 < len);
    let start = if edges[i] < fl - 1 { edges[i] } else { fl - 1 };
    let end = if edges[i + 1] < fl { edges[i + 1] } else { fl };
    if end <= start {
        (start, if start + 1 < fl { start + 1 } else { fl })
    } else {
        (start, end)
    }
}

fn line_at(
    audio: &AudioAnalysis,
    cfg: &VisualizerConfig,
    rect: Rect,
    edges: &Vec<usize>,
    i: usize,
    n: usize,
    lo: usize,
    hi: usize,
    amp: u64,
) -> (r: RidgeLine)
    requires
        cfg.ridge_ok(),
        rect_ok(rect),
        i < n,
        n <= 0xffff_ffff,
        edges@.len() == n + 1,
        lo == line_bins(edges@, i as int, max_int(audio.frequency_data@.len() as int, 1)).0,
        hi == line_bins(edges@, i as int, max_int(audio.frequency_data@.len() as int, 1)).1,
        amp <= AMP_LIMIT,
    ensures
        r == spec_line(*audio, *cfg, rect, edges@, i as int, n as int, amp as int),
        line_bounded(r),
{
    assert(i * ONE / (n as int) <= ONE) by (nonlinear_arith)
        requires i < n;
    let z = (i as u64) * ONE / (n as u64);
    assert(z * cfg.up_perspective / (ONE as int) <= PARAM_LIMIT) by (nonlinear_arith)
        requires z <= ONE, cfg.up_perspective <= PARAM_LIMIT;
    let scale = ONE as i64 - (z * cfg.up_perspective / ONE) as i64;
    assert(abs(scale_trunc(scale as int, cfg.up_line_thickness as int, ONE as int))
        <= (PARAM_LIMIT + ONE) * PARAM_LIMIT) by (nonlinear_arith)
        requires
            -(PARAM_LIMIT as int) <= scale <= ONE,
            cfg.up_line_thickness <= PARAM_LIMIT,
    ;
    let t = mul_div_trunc(scale, cfg.up_line_thickness, ONE);
    let thickness = if t > MIN_THICKNESS { t } else { MIN_THICKNESS };
    let alpha0 = 200 * (ONE - z) / ONE;
    let alpha = if alpha0 > MIN_ALPHA { alpha0 } else { MIN_ALPHA };
    assert(alpha <= 200) by (nonlinear_arith)
        requires alpha0 == 200 * (ONE - z) / (ONE as int), z <= ONE,
            alpha == if alpha0 > MIN_ALPHA { alpha0 } else { MIN_ALPHA };
    let color = if cfg.up_monochrome {
        Rgba { r: 255, g: 255, b: 255, a: alpha as u8 }
    } else {
        Rgba { r: cfg.base_color.r, g: cfg.base_color.g, b: cfg.base_color.b, a: alpha as u8 }
    };
    let h = (rect.max.y - rect.min.y) as u64;
    let spacing = h * 10 / (9 * n as u64);
    assert((i as int) * (spacing as int) <= 2 * h) by (nonlinear_arith)
        requires spacing == h * 10 / (9 * n as int), i < n, n > 0;
    assert(z * h / (ONE as int) / 5 <= h) by (nonlinear_arith)
        requires z <= ONE;
    let baseline = rect.max.y - ((i as u64) * spacing) as i64 - (z * h / ONE / 5) as i64;
    assert(cfg.up_vertical_scale * 100 <= 1_000_000_000
        && cfg.up_vertical_scale * 100 * amp <= 40_000_000_000_000_000) by (nonlinear_arith)
        requires cfg.up_vertical_scale <= 10_000_000u64, amp <= 30_010_000u64;
    let m = cfg.up_vertical_scale * 100 * amp / ONE;
    assert(m <= 4_000_000_000_000) by (nonlinear_arith)
        requires
            cfg.up_vertical_scale * 100 * amp <= 40_000_000_000_000_000,
            m == cfg.up_vertical_scale * 100 * amp / (ONE as int),
    ;
    assert(abs(scale_trunc(scale as int, m as int, ONE as int)) <= 10_000_000_000_000_000)
        by (nonlinear_arith)
        requires
            -(PARAM_LIMIT as int) <= scale <= ONE,
            m <= 4_000_000_000_000,
    ;
    let amp_scale = mul_div_trunc(scale, m, ONE);
    RidgeLine {
        z,
        bin_start: lo,
        bin_end: hi,
        amplitude: amp,
        scale,
        thickness,
        color,
        baseline,
        amp_scale,
    }
}

impl UnknownPleasuresVisualizer {
    /// Every remembered amplitude is within what a bounded configuration
    /// produces.
    pub open spec fn wf(&self) -> bool {
        forall|j: int| 0 <= j < self.last_amplitudes@.len() ==> #[trigger] self.last_amplitudes@[j]
            <= AMP_LIMIT
    }

    pub fn new() -> (r: Self)
        ensures
            r.last_amplitudes@.len() == 0,
            r.wf(),
    {
        UnknownPleasuresVisualizer { last_amplitudes: Vec::new() }
    }

    /// Lays out this frame's lines. `edges` holds the `line_count + 1` bin
    /// positions of the frequency curve, `floor((i / line_count)^exponent *
    /// bins)`. Each line's amplitude is smoothed against the last frame's and
    /// kept for the next; the memory grows to the line count and never
    /// shrinks. A line count of 0 lays out nothing.
    pub fn layout(
        &mut self,
        rect: Rect,
        audio: &AudioAnalysis,
        cfg: &VisualizerConfig,
        edges: &Vec<usize>,
    ) -> (lines: Vec<RidgeLine>)
        requires
            old(self).wf(),
            cfg.ridge_ok(),
            audio.in_unit(),
            spectrum_ok(audio.frequency_data@),
            rect_ok(rect),
            edges@.len() == cfg.up_max_lines + 1,
        ensures
            final(self).wf(),
            lines@.len() == cfg.up_max_lines,
            final(self).last_amplitudes@.len() == max_int(
                old(self).last_amplitudes@.len() as int,
                cfg.up_max_lines as int,
            ),
            forall|i: int|
                0 <= i < cfg.up_max_lines ==> #[trigger] final(self).last_amplitudes@[i] == ema(
                    padded(old(self).last_amplitudes@, i),
                    raw_amplitude(*audio, *cfg, edges@, i),
                    smoothing_of(*cfg),
                ),
            forall|i: int|
                cfg.up_max_lines <= i < old(self).last_amplitudes@.len()
                    ==> #[trigger] final(self).last_amplitudes@[i] == old(self).last_amplitudes@[i],
            forall|i: int|
                0 <= i < cfg.up_max_lines ==> #[trigger] lines@[i] == spec_line(
                    *audio,
                    *cfg,
                    rect,
                    edges@,
                    i,
                    cfg.up_max_lines as int,
                    final(self).last_amplitudes@[i] as int,
                ),
            forall|i: int| 0 <= i < lines@.len() ==> line_bounded(#[trigger] lines@[i]),
    {
        let n = cfg.up_max_lines as usize;
        let ghost before = self.last_amplitudes@;
        while self.last_amplitudes.len() < n
            invariant
                n == cfg.up_max_lines,
                before.len() <= self.last_amplitudes@.len() <= max_int(before.len() as int, n as int),
                forall|j: int| 0 <= j < before.len() ==> #[trigger] before[j] <= AMP_LIMIT,
                forall|j: int| 0 <= j < self.last_amplitudes@.len() ==> #[trigger] self.last_amplitudes@[j]
                    == padded(before, j),
            decreases n - self.last_amplitudes@.len(),
        {
            self.last_amplitudes.push(0);
        }
        let ghost padded_last = self.last_amplitudes@;
        let f = &audio.frequency_data;
        let fl = if f.len() > 1 { f.len() } else { 1 };
        let k = if cfg.up_smoothing < ONE { cfg.up_smoothing } else { ONE };
        assert(audio.smooth_bass * cfg.up_bass_mult / (ONE as int) <= PARAM_LIMIT
            && audio.smooth_mid * cfg.up_mid_mult / (ONE as int) <= PARAM_LIMIT
            && audio.smooth_treble * cfg.up_treble_mult / (ONE as int) <= PARAM_LIMIT)
            by (nonlinear_arith)
            requires
                audio.smooth_bass <= ONE,
                audio.smooth_mid <= ONE,
                audio.smooth_treble <= ONE,
                cfg.up_bass_mult <= PARAM_LIMIT,
                cfg.up_mid_mult <= PARAM_LIMIT,
                cfg.up_treble_mult <= PARAM_LIMIT,
        ;
        let gain = ONE + audio.smooth_bass * cfg.up_bass_mult / ONE + audio.smooth_mid * cfg.up_mid_mult / ONE
            + audio.smooth_treble * cfg.up_treble_mult / ONE;
        let mut lines: Vec<RidgeLine> = Vec::new();
        let mut i: usize = 0;
        while i < n
            invariant
                n == cfg.up_max_lines,
                edges@.len() == n + 1,
                i <= n,
                self.last_amplitudes@.len() == max_int(before.len() as int, n as int),
                self.last_amplitudes@.len() == padded_last.len(),
                forall|j: int| 0 <= j < padded_last.len() ==> #[trigger] padded_last[j] == padded(before, j),
                forall|j: int| 0 <= j < before.len() ==> #[trigger] before[j] <= AMP_LIMIT,
                forall|j: int| 0 <= j < self.last_amplitudes@.len() ==> #[trigger] self.last_amplitudes@[j] <= AMP_LIMIT,
                cfg.ridge_ok(),
                audio.in_unit(),
                spectrum_ok(audio.frequency_data@),
                rect_ok(rect),
                f == &audio.frequency_data,
                fl == max_int(f@.len() as int, 1),
                k == smoothing_of(*cfg),
                gain == band_gain(*cfg, *audio),
                gain <= AMP_LIMIT,
                forall|j: int| i <= j < padded_last.len() ==> #[trigger] self.last_amplitudes@[j] == padded_last[j],
                forall|j: int|
                    0 <= j < i ==> #[trigger] self.last_amplitudes@[j] == ema(
                        padded(before, j),
                        raw_amplitude(*audio, *cfg, edges@, j),
                        smoothing_of(*cfg),
                    ),
                lines@.len() == i,
                forall|j: int| 0 <= j < i ==> line_bounded(#[trigger] lines@[j]),
                forall|j: int|
                    0 <= j < i ==> #[trigger] lines@[j] == spec_line(
                        *audio,
                        *cfg,
                        rect,
                        edges@,
                        j,
                        n as int,
                        self.last_amplitudes@[j] as int,
                    ),
            decreases n - i,
        {
            let (lo, hi) = bins_of(edges, i, fl);
            let raw = if f.len() == 0 {
                0
            } else {
                let level = mean_level_exec(f, lo, hi);
                assert(level * gain / (ONE as int) <= AMP_LIMIT) by (nonlinear_arith)
                    requires level <= ONE, gain <= AMP_LIMIT;
                level * gain / ONE
            };
            assert(raw == raw_amplitude(*audio, *cfg, edges@, i as int));
            let amp = smooth(self.last_amplitudes[i], raw, k);
            self.last_amplitudes.set(i, amp);
            let line = line_at(audio, cfg, rect, edges, i, n, lo, hi, amp);
            lines.push(line);
            i = i + 1;
        }
        lines
    }
}

/// Parameter `t` in [0, 1] of sample `s` along a line of `samples` points.
pub open spec fn sample_t(s: int, samples: int) -> int {
    if samples > 1 { s * ONE / (samples - 1) } else { 0 }
}

/// Cosine and sine of the stack's rotation, or the identity when it is off.
pub open spec fn rotation_of(c: VisualizerConfig) -> (int, int) {
    if c.up_isometric_rotate {
        let r = muldiv(c.up_rotation_deg as int, PI as int, 180 * ONE);
        (spec_cos(r), spec_sin(r))
    } else {
        (ONE as int, 0)
    }
}

/// Point `s` of a line: centered horizontal position scaled by length and
/// zoom; vertical offset from a sine carrier whose frequency grows with depth
/// and whose phase advances with time, scaled by the line's amplitude and a
/// small jitter that fades with depth; then rotated about the center.
pub open spec fn ridge_point(
    line: RidgeLine,
    c: VisualizerConfig,
    rect: Rect,
    time: int,
    samples: int,
    s: int,
) -> Point {
    let t = sample_t(s, samples);
    let z = line.z as int;
    let w = rect.max.x - rect.min.x;
    let cx = rect.min.x + w / 2;
    let cy = rect.min.y + (rect.max.y - rect.min.y) / 2;
    let lx = muldiv(
        muldiv(muldiv(t - ONE / 2, w, ONE as int), c.up_line_length as int, ONE as int),
        c.up_zoom as int,
        ONE as int,
    );
    let arg = muldiv(muldiv(t, TWO_PI as int, ONE as int), ONE + 6 * z, ONE as int) + muldiv(
        2 * time,
        ONE + z,
        ONE as int,
    );
    let carrier = spec_sin(arg);
    let jsum = muldiv(spec_sin(50 * t), 1500, ONE as int) + muldiv(spec_cos(12 * t), 800, ONE as int);
    let jitter = muldiv(muldiv(jsum, ONE - z, ONE as int), 6000, ONE as int);
    let ly = (line.baseline - cy) - muldiv(
        muldiv(carrier, line.amp_scale as int, ONE as int),
        ONE + jitter,
        ONE as int,
    );
    let (ca, sa) = rotation_of(c);
    Point {
        x: (cx + muldiv(lx, ca, ONE as int) - muldiv(ly, sa, ONE as int)) as i64,
        y: (cy + muldiv(lx, sa, ONE as int) + muldiv(ly, ca, ONE as int)) as i64,
    }
}

fn rotation_exec(c: &VisualizerConfig) -> (r: (i64, i64))
    requires
        c.ridge_ok(),
    ensures
        r.0 == rotation_of(*c).0,
        r.1 == rotation_of(*c).1,
        -(ONE as int) <= r.0 <= ONE,
        -(ONE as int) <= r.1 <= ONE,
{
    if c.up_isometric_rotate {
        proof { lemma_muldiv_bound(c.up_rotation_deg as int, PI as int, 180 * ONE, DEG_LIMIT as int, PI as int); }
        let r = mul_div(c.up_rotation_deg, PI as i64, 180 * ONE);
        (cos_approx(r), sin_approx(r))
    } else {
        (ONE as i64, 0)
    }
}

fn point_at(
    line: &RidgeLine,
    c: &VisualizerConfig,
    rect: Rect,
    time: u64,
    samples: u32,
    s: u32,
    rot: (i64, i64),
) -> (r: Point)
    requires
        c.ridge_ok(),
        rect_ok(rect),
        line_bounded(*line),
        time <= TIME_LIMIT,
        s < samples,
        rot.0 == rotation_of(*c).0,
        rot.1 == rotation_of(*c).1,
        -(ONE as int) <= rot.0 <= ONE,
        -(ONE as int) <= rot.1 <= ONE,
    ensures
        r == ridge_point(*line, *c, rect, time as int, samples as int, s as int),
{
    let one = ONE as i64;
    let t: i64 = if samples > 1 { ((s as u64) * ONE / ((samples - 1) as u64)) as i64 } else { 0 };
    assert(0 <= t <= ONE) by (nonlinear_arith)
        requires samples > 1 ==> t == s * ONE / (samples - 1), samples <= 1 ==> t == 0, s < samples;
    let z = line.z as i64;
    let w = rect.max.x - rect.min.x;
    let h = rect.max.y - rect.min.y;
    let cx = rect.min.x + w / 2;
    let cy = rect.min.y + h / 2;
    proof { lemma_muldiv_bound(t - ONE / 2, w as int, ONE as int, ONE as int, 0x200_0000_0000); }
    let a1 = mul_div(t - one / 2, w, ONE);
    proof {
        lemma_muldiv_bound(a1 as int, c.up_line_length as int, ONE as int, 0x200_0000_0000, STRETCH_LIMIT as int);
    }
    let a2 = mul_div(a1, c.up_line_length as i64, ONE);
    proof {
        lemma_muldiv_bound(a2 as int, c.up_zoom as int, ONE as int, (0x200_0000_0000 * 100) as int, STRETCH_LIMIT as int);
    }
    let lx = mul_div(a2, c.up_zoom as i64, ONE);
    assert(-0x200_0000_0000 * 10000 <= lx <= 0x200_0000_0000 * 10000);

    proof { lemma_muldiv_bound(t as int, TWO_PI as int, ONE as int, ONE as int, TWO_PI as int); }
    let b1 = mul_div(t, TWO_PI as i64, ONE);
    proof { lemma_muldiv_bound(b1 as int, ONE + 6 * z, ONE as int, TWO_PI as int, 7 * ONE); }
    let b2 = mul_div(b1, one + 6 * z, ONE);
    proof { lemma_muldiv_bound(2 * time, ONE + z, ONE as int, 2 * TIME_LIMIT, 2 * ONE); }
    let b3 = mul_div(2 * time as i64, one + z, ONE);
    let carrier = sin_approx(b2 + b3);

    let j1 = sin_approx(50 * t);
    let j2 = cos_approx(12 * t);
    proof {
        lemma_muldiv_bound(j1 as int, 1500, ONE as int, ONE as int, 1500);
        lemma_muldiv_bound(j2 as int, 800, ONE as int, ONE as int, 800);
    }
    let jsum = mul_div(j1, 1500, ONE) + mul_div(j2, 800, ONE);
    proof { lemma_muldiv_bound(jsum as int, ONE - z, ONE as int, 2300, ONE as int); }
    let jz = mul_div(jsum, one - z, ONE);
    proof { lemma_muldiv_bound(jz as int, 6000, ONE as int, 2300, 6000); }
    let jitter = mul_div(jz, 6000, ONE);

    proof {
        lemma_muldiv_bound(carrier as int, line.amp_scale as int, ONE as int, ONE as int, 10_000_000_000_000_000);
    }
    let d1 = mul_div(carrier, line.amp_scale, ONE);
    proof {
        lemma_muldiv_bound(d1 as int, ONE + jitter, ONE as int, 10_000_000_000_000_000, 2 * ONE);
    }
    let d2 = mul_div(d1, one + jitter, ONE);
    let ly = (line.baseline - cy) - d2;
    let (ca, sa) = rot;
    let ghost ly_max: int = 20_000_000_000_000_000int + 0x2000_0000_0000int;
    let ghost lx_max: int = 0x200_0000_0000int * 10000int;
    proof {
        lemma_muldiv_bound(lx as int, ca as int, ONE as int, lx_max, ONE as int);
        lemma_muldiv_bound(ly as int, sa as int, ONE as int, ly_max, ONE as int);
        lemma_muldiv_bound(lx as int, sa as int, ONE as int, lx_max, ONE as int);
        lemma_muldiv_bound(ly as int, ca as int, ONE as int, ly_max, ONE as int);
    }
    Point {
        x: cx + mul_div(lx, ca, ONE) - mul_div(ly, sa, ONE),
        y: cy + mul_div(lx, sa, ONE) + mul_div(ly, ca, ONE),
    }
}

/// The points of one line, `samples` of them.
pub fn ridge_points(line: &RidgeLine, c: &VisualizerConfig, rect: Rect, time: u64) -> (r: Vec<Point>)
    requires
        c.ridge_ok(),
        rect_ok(rect),
        line_bounded(*line),
        time <= TIME_LIMIT,
    ensures
        r@.len() == c.up_samples,
        forall|s: int|
            0 <= s < c.up_samples ==> #[trigger] r@[s] == ridge_point(
                *line,
                *c,
                rect,
                time as int,
                c.up_samples as int,
                s,
            ),
{
    let rot = rotation_exec(c);
    let mut pts: Vec<Point> = Vec::new();
    let mut s: u32 = 0;
    while s < c.up_samples
        invariant
            c.ridge_ok(),
            rect_ok(rect),
            line_bounded(*line),
            time <= TIME_LIMIT,
            rot.0 == rotation_of(*c).0,
            rot.1 == rotation_of(*c).1,
            -(ONE as int) <= rot.0 <= ONE,
            -(ONE as int) <= rot.1 <= ONE,
            s <= c.up_samples,
            pts@.len() == s,
            forall|j: int|
                0 <= j < s ==> #[trigger] pts@[j] == ridge_point(
                    *line,
                    *c,
                    rect,
                    time as int,
                    c.up_samples as int,
                    j,
                ),
        decreases c.up_samples - s,
    {
        let p = point_at(line, c, rect, time, c.up_samples, s, rot);
        pts.push(p);
        s = s + 1;
    }
    pts
}

/// A line ready to stroke: consecutive points are joined.
pub struct Polyline {
    pub points: Vec<Point>,
    pub thickness: i64,
    pub color: Rgba,
}

impl UnknownPleasuresVisualizer {
    /// One frame of the stack: lays out the lines (see `layout`) and computes
    /// each line's points at `time`.
    pub fn draw(
        &mut self,
        rect: Rect,
        audio: &AudioAnalysis,
        cfg: &VisualizerConfig,
        time: u64,
        edges: &Vec<usize>,
    ) -> (r: Vec<Polyline>)
        requires
            old(self).wf(),
            cfg.ridge_ok(),
            audio.in_unit(),
            spectrum_ok(audio.frequency_data@),
            rect_ok(rect),
            time <= TIME_LIMIT,
            edges@.len() == cfg.up_max_lines + 1,
        ensures
            final(self).wf(),
            final(self).last_amplitudes@.len() == max_int(
                old(self).last_amplitudes@.len() as int,
                cfg.up_max_lines as int,
            ),
            forall|i: int|
                0 <= i < cfg.up_max_lines ==> #[trigger] final(self).last_amplitudes@[i] == ema(
                    padded(old(self).last_amplitudes@, i),
                    raw_amplitude(*audio, *cfg, edges@, i),
                    smoothing_of(*cfg),
                ),
            forall|i: int|
                cfg.up_max_lines <= i < old(self).last_amplitudes@.len()
                    ==> #[trigger] final(self).last_amplitudes@[i] == old(self).last_amplitudes@[i],
            r@.len() == cfg.up_max_lines,
            forall|i: int|
                0 <= i < cfg.up_max_lines ==> {
                    let line = spec_line(
                        *audio,
                        *cfg,
                        rect,
                        edges@,
                        i,
                        cfg.up_max_lines as int,
                        final(self).last_amplitudes@[i] as int,
                    );
                    &&& (#[trigger] r@[i]).thickness == line.thickness
                    &&& r@[i].color == line.color
                    &&& r@[i].points@.len() == cfg.up_samples
                    &&& forall|s: int|
                        0 <= s < cfg.up_samples ==> #[trigger] r@[i].points@[s] == ridge_point(
                            line,
                            *cfg,
                            rect,
                            time as int,
                            cfg.up_samples as int,
                            s,
                        )
                },
    {
        let lines = self.layout(rect, audio, cfg, edges);
        let mut out: Vec<Polyline> = Vec::new();
        let mut i: usize = 0;
        while i < lines.len()
            invariant
                lines@.len() == cfg.up_max_lines,
                cfg.ridge_ok(),
                rect_ok(rect),
                time <= TIME_LIMIT,
                forall|j: int| 0 <= j < lines@.len() ==> line_bounded(#[trigger] lines@[j]),
                i <= lines@.len(),
                out@.len() == i,
                forall|j: int|
                    0 <= j < i ==> {
                        &&& (#[trigger] out@[j]).thickness == lines@[j].thickness
                        &&& out@[j].color == lines@[j].color
                        &&& out@[j].points@.len() == cfg.up_samples
                        &&& forall|s: int|
                            0 <= s < cfg.up_samples ==> #[trigger] out@[j].points@[s] == ridge_point(
                                lines@[j],
                                *cfg,
                                rect,
                                time as int,
                                cfg.up_samples as int,
                                s,
                            )
                    },
            decreases lines@.len() - i,
        {
            let line = &lines[i];
            let points = ridge_points(line, cfg, rect, time);
            out.push(Polyline { points, thickness: line.thickness, color: line.color });
            i = i + 1;
        }
        out
    }
}

} // verus!
