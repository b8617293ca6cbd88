//! The spectrum and waveform panels drawn from the retained frequency and
//! time-domain arrays.
use vstd::prelude::*;
use crate::fixed::{ONE, muldiv, mul_div, lemma_muldiv_bound};
use crate::geometry::{Point, Rect, Rgba, Segment};
use crate::color::{spec_hsl, hsl_to_rgb};
use crate::analysis::MAX_FRAME_LEN;
use crate::ridgeline::{rect_ok, spectrum_ok};

verus! {

pub const BAR_COUNT: u64 = 64;

/// Width of a waveform stroke, 2 pixels.
pub const WAVE_WIDTH: u64 = 2 * ONE;

/// A filled bar of the spectrum panel.
#[derive(Clone, Copy, Debug, PartialEq, Eq, Structural)]
pub struct Bar {
    pub rect: Rect,
    pub color: Rgba,
}

/// Bar `i` of 64: the bin at the same fraction of the spectrum, as tall as
/// its magnitude, hued by its position.
pub open spec fn spectrum_bar(f: Seq<u64>, rect: Rect, i: int) -> Bar {
    let w = rect.max.x - rect.min.x;
    let h = rect.max.y - rect.min.y;
    let bw = w / BAR_COUNT as int;
    let idx = i * f.len() / BAR_COUNT as int;
    let value = if idx < f.len() { f[idx] / 255 } else { 0 };
    let height = value * h / ONE as int;
    let x = rect.min.x + i * bw;
    Bar {
        rect: Rect {
            min: Point { x: x as i64, y: (rect.max.y - height) as i64 },
            max: Point { x: (x + bw - ONE) as i64, y: rect.max.y },
        },
        color: spec_hsl(i * ONE / BAR_COUNT as int, 8000, 5000),
    }
}

pub fn draw_spectrum(f: &Vec<u64>, rect: Rect) -> (r: Vec<Bar>)
    requires
        spectrum_ok(f@),
        rect_ok(rect),
    ensures
        r@.len() == BAR_COUNT,
        forall|i: int| 0 <= i < BAR_COUNT ==> #[trigger] r@[i] == spectrum_bar(f@, rect, i),
{
    let w = (rect.max.x - rect.min.x) as u64;
    let h = (rect.max.y - rect.min.y) as u64;
    let bw = w / BAR_COUNT;
    let mut out: Vec<Bar> = Vec::new();
    let mut i: u64 = 0;
    while i < BAR_COUNT
        invariant
            spectrum_ok(f@),
            rect_ok(rect),
            w == rect.max.x - rect.min.x,
            h == rect.max.y - rect.min.y,
            bw == w / BAR_COUNT,
            i <= BAR_COUNT,
            out@.len() == i,
            forall|j: int| 0 <= j < i ==> #[trigger] out@[j] == spectrum_bar(f@, rect, j),
        decreases BAR_COUNT - i,
    {
        assert((i as int) * (f@.len() as int) <= BAR_COUNT * MAX_FRAME_LEN
            && (i as int) * (f@.len() as int) / (BAR_COUNT as int) <= f@.len()) by (nonlinear_arith)
            requires i < BAR_COUNT, f@.len() <= MAX_FRAME_LEN;
        let idx = ((i as u128) * (f.len() as u128) / (BAR_COUNT as u128)) as usize;
        let value: u64 = if idx < f.len() {
            assert(f@[idx as int] <= 255 * ONE);
            f[idx] / 255
        } else {
            0
        };
        assert(value * h / (ONE as int) <= h) by (nonlinear_arith)
            requires value <= ONE;
        let height = ((value as u128) * (h as u128) / (ONE as u128)) as i64;
        assert(i * bw <= w) by (nonlinear_arith)
            requires i < BAR_COUNT, bw == w / BAR_COUNT;
        let x = rect.min.x + (i * bw) as i64;
        out.push(Bar {
            rect: Rect {
                min: Point { x, y: rect.max.y - height },
                max: Point { x: x + bw as i64 - ONE as i64, y: rect.max.y },
            },
            color: hsl_to_rgb(i * ONE / BAR_COUNT, 8000, 5000),
        });
        i = i + 1;
    }
    out
}

/// Amplitudes small enough to place on screen.
pub open spec fn wave_ok(t: Seq<i64>) -> bool {
    &&& t.len() <= MAX_FRAME_LEN
    &&& forall|i: int| 0 <= i < t.len() ==> -0x1_0000_0000 <= #[trigger] t[i] <= 0x1_0000_0000
}

/// Point `i` of the waveform: spread evenly across the width, displaced from
/// the middle by half the height at full scale.
pub open spec fn wave_point(t: Seq<i64>, rect: Rect, i: int) -> Point {
    let w = rect.max.x - rect.min.x;
    let h = rect.max.y - rect.min.y;
    Point {
        x: (rect.min.x + i * w / t.len() as int) as i64,
        y: (rect.min.y + h / 2 + muldiv(t[i] as int, h, 2 * ONE)) as i64,
    }
}

pub open spec fn wave_segment(t: Seq<i64>, rect: Rect, i: int) -> Segment {
    Segment {
        start: wave_point(t, rect, i),
        end: wave_point(t, rect, i + 1),
        width: WAVE_WIDTH,
        color: spec_hsl(i * ONE / t.len() as int, 7000, 6000),
    }
}

fn wave_point_exec(t: &Vec<i64>, rect: Rect, i: usize) -> (r: Point)
    requires
        wave_ok(t@),
        rect_ok(rect),
        i < t@.len(),
    ensures
        r == wave_point(t@, rect, i as int),
{
    let w = (rect.max.x - rect.min.x) as u64;
    let h = (rect.max.y - rect.min.y) as i64;
    assert((i as int) * (w as int) / (t@.len() as int) <= w) by (nonlinear_arith)
        requires i < t@.len();
    assert((i as int) * (w as int) <= MAX_FRAME_LEN * 0x200_0000_0000) by (nonlinear_arith)
        requires i < t@.len(), t@.len() <= MAX_FRAME_LEN, w <= 0x200_0000_0000u64;
    let dx = ((i as u128) * (w as u128) / (t.len() as u128)) as i64;
    proof { lemma_muldiv_bound(t@[i as int] as int, h as int, 2 * ONE, 0x1_0000_0000, 0x200_0000_0000); }
    let dy = mul_div(t[i], h, 2 * ONE);
    Point { x: rect.min.x + dx, y: rect.min.y + h / 2 + dy }
}

/// Strokes joining consecutive samples of the waveform, hued by position.
pub fn draw_waveform(t: &Vec<i64>, rect: Rect) -> (r: Vec<Segment>)
    requires
        wave_ok(t@),
        rect_ok(rect),
    ensures
        t@.len() <= 1 ==> r@.len() == 0,
        t@.len() > 1 ==> r@.len() == t@.len() - 1,
        forall|i: int| 0 <= i < r@.len() ==> #[trigger] r@[i] == wave_segment(t@, rect, i),
{
    let mut out: Vec<Segment> = Vec::new();
    if t.len() <= 1 {
        return out;
    }
    let n = t.len();
    let mut i: usize = 0;
    while i < n - 1
        invariant
            wave_ok(t@),
            rect_ok(rect),
            n == t@.len(),
            n > 1,
            i <= n - 1,
            out@.len() == i,
            forall|j: int| 0 <= j < i ==> #[trigger] out@[j] == wave_segment(t@, rect, j),
        decreases n - 1 - i,
    {
        let a = wave_point_exec(t, rect, i);
        let b = wave_point_exec(t, rect, i + 1);
        assert((i as int) * (ONE as int) / (n as int) <= ONE) by (nonlinear_arith)
            requires i < n;
        let hue = ((i as u128) * (ONE as u128) / (n as u128)) as u64;
        out.push(Segment { start: a, end: b, width: WAVE_WIDTH, color: hsl_to_rgb(hue, 7000, 6000) });
        i = i + 1;
    }
    out
}

} // verus!
