//! The recursive fractal tree: two children per branch, each shorter and
//! turned by a narrowing branch angle, cut off by depth or by length.
use vstd::prelude::*;
use vstd::arithmetic::power2::{pow2, lemma_pow2_unfold, lemma_pow2_pos};
use crate::fixed::{ONE, abs, min_int, max_int, scale_trunc, mul_div_trunc};
use crate::angle::{
    TWO_PI,
    HALF_PI,
    QUARTER_PI,
    ANGLE_LIMIT,
    wrap,
    spec_sin,
    spec_cos,
    wrap_angle,
    sin_approx,
    cos_approx,
};
use crate::geometry::{Point, Rgba, Rect, Segment, Dot};
use crate::analysis::AudioAnalysis;
use crate::config::{VisualizerConfig, PARAM_LIMIT};

verus! {

/// Branches shorter than two pixels are not drawn.
pub const MIN_BRANCH_LENGTH: u64 = 2 * ONE;

/// Bound on `|coordinate| + 4 * length` along every path of the tree.
pub const COORD_BUDGET: i64 = 0x1000_0000_0000_0000;

/// Largest branching half-angle.
pub const BRANCH_LIMIT: u64 = 0x100_0000_0000;

/// Largest factor by which a child's length may shrink, 0.75.
pub const MAX_DECAY: u64 = 7500;

/// What stays fixed over one tree.
#[derive(Clone, Copy)]
pub struct BranchStyle {
    pub base_depth: u32,
    pub brightness: u64,
    pub color: Rgba,
    pub clip: Rect,
    /// Turn added by the mid band to both children.
    pub angle_mod: u64,
    /// Child length per unit of parent length.
    pub decay: u64,
}

impl BranchStyle {
    pub open spec fn wf(&self) -> bool {
        &&& self.base_depth > 0
        &&& self.brightness <= 0x1000_0000_0000_0000
        &&& self.angle_mod <= ONE
        &&& self.decay <= MAX_DECAY
    }
}

/// A branch of `length` starting at `p` keeps the whole subtree inside the
/// coordinate budget.
pub open spec fn within_budget(p: Point, length: int) -> bool {
    &&& abs(p.x as int) + 4 * length <= COORD_BUDGET
    &&& abs(p.y as int) + 4 * length <= COORD_BUDGET
}

pub open spec fn branch_end(start: Point, length: int, angle: int) -> Point {
    Point {
        x: (start.x + scale_trunc(spec_cos(angle), length, ONE as int)) as i64,
        y: (start.y + scale_trunc(spec_sin(angle), length, ONE as int)) as i64,
    }
}

pub open spec fn bounding_rect(a: Point, b: Point) -> Rect {
    Rect {
        min: Point { x: min_int(a.x as int, b.x as int) as i64, y: min_int(a.y as int, b.y as int) as i64 },
        max: Point { x: max_int(a.x as int, b.x as int) as i64, y: max_int(a.y as int, b.y as int) as i64 },
    }
}

pub open spec fn rects_intersect(a: Rect, b: Rect) -> bool {
    a.min.x <= b.max.x && b.min.x <= a.max.x && a.min.y <= b.max.y && b.min.y <= a.max.y
}

/// A segment is skipped only when neither end is inside the clip rectangle
/// and its bounding rectangle misses the clip rectangle too.
pub open spec fn off_view(clip: Rect, s: Point, e: Point) -> bool {
    !clip.spec_contains(s) && !clip.spec_contains(e) && !rects_intersect(bounding_rect(s, e), clip)
}

/// Color channel scaled by brightness and by `depth / base_depth`.
pub open spec fn shade(c: int, brightness: int, depth: int, base_depth: int) -> int {
    min_int(c * brightness * depth / (ONE * base_depth), 255)
}

pub open spec fn branch_segment(st: BranchStyle, s: Point, e: Point, depth: int) -> Segment {
    Segment {
        start: s,
        end: e,
        width: max_int(depth * 1000, 5000) as u64,
        color: Rgba {
            r: shade(st.color.r as int, st.brightness as int, depth, st.base_depth as int) as u8,
            g: shade(st.color.g as int, st.brightness as int, depth, st.base_depth as int) as u8,
            b: shade(st.color.b as int, st.brightness as int, depth, st.base_depth as int) as u8,
            a: min_int(255 * depth / (st.base_depth as int), 255) as u8,
        },
    }
}

pub open spec fn child_length(st: BranchStyle, length: int) -> int {
    length * st.decay / ONE as int
}

pub open spec fn child_branch(branch: int) -> int {
    branch * 95 / 100
}

/// Segments of the subtree rooted at a branch, in drawing order: the branch,
/// then its left subtree, then its right subtree.
pub open spec fn branch_segments(
    st: BranchStyle,
    start: Point,
    length: int,
    angle: int,
    branch: int,
    depth: nat,
) -> Seq<Segment>
    decreases depth,
{
    if depth == 0 || length < MIN_BRANCH_LENGTH {
        seq![]
    } else {
        let end = branch_end(start, length, angle);
        if off_view(st.clip, start, end) {
            seq![]
        } else {
            let nl = child_length(st, length);
            let nb = child_branch(branch);
            seq![branch_segment(st, start, end, depth as int)] + branch_segments(
                st,
                end,
                nl,
                wrap(angle - branch + st.angle_mod),
                nb,
                (depth - 1) as nat,
            ) + branch_segments(st, end, nl, wrap(angle + branch + st.angle_mod), nb, (depth - 1) as nat)
        }
    }
}

/// Number of invocations the recursion makes for a subtree.
pub open spec fn branch_calls(
    st: BranchStyle,
    start: Point,
    length: int,
    angle: int,
    branch: int,
    depth: nat,
) -> nat
    decreases depth,
{
    if depth == 0 || length < MIN_BRANCH_LENGTH {
        1
    } else {
        let end = branch_end(start, length, angle);
        if off_view(st.clip, start, end) {
            1
        } else {
            let nl = child_length(st, length);
            let nb = child_branch(branch);
            1 + branch_calls(st, end, nl, wrap(angle - branch + st.angle_mod), nb, (depth - 1) as nat)
                + branch_calls(
                st,
                end,
                nl,
                wrap(angle + branch + st.angle_mod),
                nb,
                (depth - 1) as nat,
            )
        }
    }
}

/// The recursion always stops: a tree of depth `depth` makes at most
/// `2^(depth + 1) - 1` invocations and draws at most `2^depth - 1` segments,
/// one per invocation that goes on to its two children.
pub proof fn lemma_tree_bounded(
    st: BranchStyle,
    start: Point,
    length: int,
    angle: int,
    branch: int,
    depth: nat,
)
    ensures
        branch_calls(st, start, length, angle, branch, depth) == 2 * branch_segments(
            st,
            start,
            length,
            angle,
            branch,
            depth,
        ).len() + 1,
        branch_segments(st, start, length, angle, branch, depth).len() <= pow2(depth) - 1,
        branch_calls(st, start, length, angle, branch, depth) <= pow2(depth + 1) - 1,
    decreases depth,
{
    lemma_pow2_pos(depth);
    lemma_pow2_unfold(depth + 1);
    if depth == 0 || length < MIN_BRANCH_LENGTH {
    } else {
        let end = branch_end(start, length, angle);
        if !off_view(st.clip, start, end) {
            let nl = child_length(st, length);
            let nb = child_branch(branch);
            let d1 = (depth - 1) as nat;
            lemma_tree_bounded(st, end, nl, wrap(angle - branch + st.angle_mod), nb, d1);
            lemma_tree_bounded(st, end, nl, wrap(angle + branch + st.angle_mod), nb, d1);
            lemma_pow2_unfold(depth);
        }
    }
}

fn shade_exec(c: u8, brightness: u64, depth: u32, base_depth: u32) -> (r: u8)
    requires
        base_depth > 0,
        brightness <= 0x1000_0000_0000_0000,
    ensures
        r == shade(c as int, brightness as int, depth as int, base_depth as int),
{
    assert((c as int) * (brightness as int) <= 255 * 0x1000_0000_0000_0000
        && (c as int) * (brightness as int) * (depth as int) <= 255 * 0x1000_0000_0000_0000 * 0xffff_ffff)
        by (nonlinear_arith)
        requires c <= 255, brightness <= 0x1000_0000_0000_0000, depth <= 0xffff_ffffu32;
    assert((ONE as int) * (base_depth as int) > 0) by (nonlinear_arith)
        requires base_depth > 0;
    let v = (c as u128) * (brightness as u128) * (depth as u128) / ((ONE as u128) * (base_depth as u128));
    if v < 255 { v as u8 } else { 255 }
}

fn make_segment(st: &BranchStyle, s: Point, e: Point, depth: u32) -> (r: Segment)
    requires
        st.wf(),
    ensures
        r == branch_segment(*st, s, e, depth as int),
{
    let alpha = (255 * depth as u64) / (st.base_depth as u64);
    Segment {
        start: s,
        end: e,
        width: if (depth as u64) * 1000 > 5000 { (depth as u64) * 1000 } else { 5000 },
        color: Rgba {
            r: shade_exec(st.color.r, st.brightness, depth, st.base_depth),
            g: shade_exec(st.color.g, st.brightness, depth, st.base_depth),
            b: shade_exec(st.color.b, st.brightness, depth, st.base_depth),
            a: if alpha < 255 { alpha as u8 } else { 255 },
        },
    }
}

fn is_off_view(clip: &Rect, s: Point, e: Point) -> (r: bool)
    ensures
        r == off_view(*clip, s, e),
{
    if clip.contains(s) || clip.contains(e) {
        return false;
    }
    let b = Rect {
        min: Point { x: if s.x < e.x { s.x } else { e.x }, y: if s.y < e.y { s.y } else { e.y } },
        max: Point { x: if s.x > e.x { s.x } else { e.x }, y: if s.y > e.y { s.y } else { e.y } },
    };
    !(b.min.x <= clip.max.x && clip.min.x <= b.max.x && b.min.y <= clip.max.y && clip.min.y <= b.max.y)
}

/// Appends the segments of the subtree rooted at the branch from `start`
/// with `length`, direction `angle` and branching half-angle `branch_angle`.
pub fn draw_branch(
    st: &BranchStyle,
    out: &mut Vec<Segment>,
    start: Point,
    length: u64,
    angle: u64,
    branch_angle: u64,
    depth: u32,
)
    requires
        st.wf(),
        angle < TWO_PI,
        branch_angle <= BRANCH_LIMIT,
        within_budget(start, length as int),
    ensures
        final(out)@ == old(out)@ + branch_segments(
            *st,
            start,
            length as int,
            angle as int,
            branch_angle as int,
            depth as nat,
        ),
    decreases depth,
{
    if depth == 0 || length < MIN_BRANCH_LENGTH {
        assert(out@ =~= old(out)@ + seq![]);
        return;
    }
    let c = cos_approx(angle as i64);
    let s = sin_approx(angle as i64);
    assert(abs(scale_trunc(c as int, length as int, ONE as int)) <= length) by (nonlinear_arith)
        requires -(ONE as int) <= c <= ONE, length >= 0;
    assert(abs(scale_trunc(s as int, length as int, ONE as int)) <= length) by (nonlinear_arith)
        requires -(ONE as int) <= s <= ONE, length >= 0;
    let dx = mul_div_trunc(c, length, ONE);
    let dy = mul_div_trunc(s, length, ONE);
    let end = Point { x: start.x + dx, y: start.y + dy };
    if is_off_view(&st.clip, start, end) {
        assert(out@ =~= old(out)@ + seq![]);
        return;
    }
    let seg = make_segment(st, start, end, depth);
    out.push(seg);
    assert((length as int) * (st.decay as int) / (ONE as int) * 4 <= 3 * length) by (nonlinear_arith)
        requires st.decay <= MAX_DECAY, length >= 0;
    let nl = ((length as u128) * (st.decay as u128) / (ONE as u128)) as u64;
    let nb = branch_angle / 100 * 95 + branch_angle % 100 * 95 / 100;
    assert(nb == branch_angle * 95 / 100) by (nonlinear_arith)
        requires nb == branch_angle / 100 * 95 + branch_angle % 100 * 95 / 100;
    let a1 = wrap_angle(angle as i64 - branch_angle as i64 + st.angle_mod as i64);
    let a2 = wrap_angle(angle as i64 + branch_angle as i64 + st.angle_mod as i64);
    let ghost mid = out@;
    draw_branch(st, out, end, nl, a1, nb, depth - 1);
    let ghost left = out@;
    draw_branch(st, out, end, nl, a2, nb, depth - 1);
    assert(out@ =~= old(out)@ + branch_segments(
        *st,
        start,
        length as int,
        angle as int,
        branch_angle as int,
        depth as nat,
    ));
}

/// Largest coordinate of a drawing rectangle.
pub const RECT_LIMIT: i64 = 0x100_0000_0000;

impl VisualizerConfig {
    pub open spec fn fractal_ok(&self) -> bool {
        &&& self.base_zoom <= PARAM_LIMIT
        &&& self.zoom_bass_mult <= PARAM_LIMIT
        &&& self.base_width <= PARAM_LIMIT
        &&& self.width_bass_mult <= PARAM_LIMIT
        &&& self.depth_complexity_mult <= PARAM_LIMIT
        &&& self.base_brightness <= PARAM_LIMIT
        &&& self.brightness_treble_mult <= PARAM_LIMIT
        &&& self.base_depth <= 1000
    }
}

pub open spec fn rect_ok(r: Rect) -> bool {
    &&& -RECT_LIMIT <= r.min.x <= r.max.x <= RECT_LIMIT
    &&& -RECT_LIMIT <= r.min.y <= r.max.y <= RECT_LIMIT
}

/// The four per-frame parameters of the tree.
#[derive(Clone, Copy, Debug, PartialEq, Eq, Structural)]
pub struct FractalFrame {
    pub zoom: u64,
    pub width: u64,
    pub depth: u32,
    pub brightness: u64,
}

/// `base + feature * mult`, fixed point.
pub open spec fn react(base: int, feature: int, mult: int) -> int {
    base + feature * mult / ONE as int
}

pub open spec fn spec_fractal_frame(c: VisualizerConfig, a: AudioAnalysis) -> FractalFrame {
    FractalFrame {
        zoom: react(c.base_zoom as int, a.smooth_bass as int, c.zoom_bass_mult as int) as u64,
        width: react(c.base_width as int, a.smooth_bass as int, c.width_bass_mult as int) as u64,
        depth: ((c.base_depth * ONE + a.spectral_centroid * c.depth_complexity_mult / ONE as int + ONE
            / 2) / ONE as int) as u32,
        brightness: react(
            c.base_brightness as int,
            a.smooth_treble as int,
            c.brightness_treble_mult as int,
        ) as u64,
    }
}

/// Zoom, width, depth (rounded to the nearest level) and brightness of this
/// frame: the configured base values plus the reactive terms.
pub fn fractal_frame(c: &VisualizerConfig, a: &AudioAnalysis) -> (r: FractalFrame)
    requires
        c.fractal_ok(),
        a.in_unit(),
    ensures
        r == spec_fractal_frame(*c, *a),
        r.zoom <= 2 * PARAM_LIMIT,
        r.width <= 2 * PARAM_LIMIT,
        r.brightness <= 2 * PARAM_LIMIT,
{
    assert(a.smooth_bass * c.zoom_bass_mult / (ONE as int) <= PARAM_LIMIT) by (nonlinear_arith)
        requires a.smooth_bass <= ONE, c.zoom_bass_mult <= PARAM_LIMIT;
    assert(a.smooth_bass * c.width_bass_mult / (ONE as int) <= PARAM_LIMIT) by (nonlinear_arith)
        requires a.smooth_bass <= ONE, c.width_bass_mult <= PARAM_LIMIT;
    assert(a.smooth_treble * c.brightness_treble_mult / (ONE as int) <= PARAM_LIMIT)
        by (nonlinear_arith)
        requires a.smooth_treble <= ONE, c.brightness_treble_mult <= PARAM_LIMIT;
    assert(a.spectral_centroid * c.depth_complexity_mult / (ONE as int) <= PARAM_LIMIT)
        by (nonlinear_arith)
        requires a.spectral_centroid <= ONE, c.depth_complexity_mult <= PARAM_LIMIT;
    let extra = a.spectral_centroid * c.depth_complexity_mult / ONE;
    let depth = ((c.base_depth as u64) * ONE + extra + ONE / 2) / ONE;
    FractalFrame {
        zoom: c.base_zoom + a.smooth_bass * c.zoom_bass_mult / ONE,
        width: c.base_width + a.smooth_bass * c.width_bass_mult / ONE,
        depth: depth as u32,
        brightness: c.base_brightness + a.smooth_treble * c.brightness_treble_mult / ONE,
    }
}

pub open spec fn rect_center(r: Rect) -> Point {
    Point { x: (r.min.x + (r.max.x - r.min.x) / 2) as i64, y: (r.min.y + (r.max.y - r.min.y) / 2) as i64 }
}

/// Length of the root branch: 0.35 of the smaller side, times the zoom.
pub open spec fn root_length(r: Rect, zoom: int) -> int {
    min_int(r.max.x - r.min.x, r.max.y - r.min.y) * 3500 / ONE as int * zoom / ONE as int
}

/// The root points up, turned by a tenth of the rotation.
pub open spec fn root_angle(rotation: int) -> int {
    wrap(scale_trunc(rotation, 1000, ONE as int) - HALF_PI)
}

pub open spec fn tree_style(c: VisualizerConfig, a: AudioAnalysis, clip: Rect, color: Rgba) -> BranchStyle {
    BranchStyle {
        base_depth: c.base_depth,
        brightness: spec_fractal_frame(c, a).brightness,
        color,
        clip,
        angle_mod: (a.smooth_mid * 2000 / ONE as int) as u64,
        decay: (6500 + a.smooth_treble * 1000 / ONE as int) as u64,
    }
}

/// The segments of this frame's tree drawn into `rect`, with the root at its
/// center. A base depth of 0 draws nothing.
pub fn draw_fractal(
    c: &VisualizerConfig,
    a: &AudioAnalysis,
    rect: Rect,
    rotation: i64,
    color: Rgba,
) -> (r: Vec<Segment>)
    requires
        c.fractal_ok(),
        a.in_unit(),
        rect_ok(rect),
        -ANGLE_LIMIT <= rotation <= ANGLE_LIMIT,
    ensures
        c.base_depth == 0 ==> r@.len() == 0,
        c.base_depth > 0 ==> r@ == branch_segments(
            tree_style(*c, *a, rect, color),
            rect_center(rect),
            root_length(rect, spec_fractal_frame(*c, *a).zoom as int),
            root_angle(rotation as int),
            QUARTER_PI * spec_fractal_frame(*c, *a).width / ONE as int,
            spec_fractal_frame(*c, *a).depth as nat,
        ),
{
    let mut out: Vec<Segment> = Vec::new();
    if c.base_depth == 0 {
        return out;
    }
    let f = fractal_frame(c, a);
    let w = (rect.max.x - rect.min.x) as u64;
    let h = (rect.max.y - rect.min.y) as u64;
    let center = Point { x: rect.min.x + (w / 2) as i64, y: rect.min.y + (h / 2) as i64 };
    let side = if w < h { w } else { h };
    let max_size = side * 3500 / ONE;
    assert(max_size * f.zoom <= 0x200_0000_0000 * (2 * PARAM_LIMIT)) by (nonlinear_arith)
        requires max_size <= side, side <= 0x200_0000_0000u64, f.zoom <= 2 * PARAM_LIMIT;
    let length = ((max_size as u128) * (f.zoom as u128) / (ONE as u128)) as u64;
    assert(length <= 0x200_0000_0000 * (2 * PARAM_LIMIT) / (ONE as int)) by (nonlinear_arith)
        requires max_size * f.zoom <= 0x200_0000_0000 * (2 * PARAM_LIMIT), length == max_size * f.zoom / (ONE as int);
    assert(QUARTER_PI * f.width <= QUARTER_PI * (2 * PARAM_LIMIT)) by (nonlinear_arith)
        requires f.width <= 2 * PARAM_LIMIT;
    let branch = QUARTER_PI * f.width / ONE;
    let turn = mul_div_trunc(rotation, 1000, ONE);
    assert(abs(scale_trunc(rotation as int, 1000, ONE as int)) <= abs(rotation as int)) by (nonlinear_arith);
    let angle = wrap_angle(turn - HALF_PI as i64);
    assert(a.smooth_mid * 2000 / (ONE as int) <= ONE) by (nonlinear_arith)
        requires a.smooth_mid <= ONE;
    assert(a.smooth_treble * 1000 / (ONE as int) <= 1000) by (nonlinear_arith)
        requires a.smooth_treble <= ONE;
    let st = BranchStyle {
        base_depth: c.base_depth,
        brightness: f.brightness,
        color,
        clip: rect,
        angle_mod: a.smooth_mid * 2000 / ONE,
        decay: 6500 + a.smooth_treble * 1000 / ONE,
    };
    draw_branch(&st, &mut out, center, length, angle, branch, f.depth);
    out
}

/// Byte channel raised by `add`, saturating at 255.
pub open spec fn raise(c: int, add: int) -> int {
    min_int(c + add, 255)
}

/// Background of the tree: the configured color brightened while a beat
/// flash (in [0, 1]) lasts.
pub fn background_color(c: &VisualizerConfig, beat_flash: u64) -> (r: Rgba)
    requires
        beat_flash <= ONE,
    ensures
        ({
            let k = beat_flash * 30 / ONE as int;
            r == Rgba {
                r: raise(c.background_color.r as int, k) as u8,
                g: raise(c.background_color.g as int, k / 2) as u8,
                b: raise(c.background_color.b as int, k) as u8,
                a: c.background_color.a,
            }
        }),
{
    let k = (beat_flash * 30 / ONE) as u8;
    let bg = c.background_color;
    Rgba { r: bg.r.saturating_add(k), g: bg.g.saturating_add(k / 2), b: bg.b.saturating_add(k), a: bg.a }
}

/// The glow behind the tree's root: alpha from glow intensity and smoothed
/// volume, radius from the root length and the smoothed bass, capped at 0.6
/// of the size limit. No glow when its intensity is 0.
pub open spec fn spec_glow(c: VisualizerConfig, a: AudioAnalysis, rect: Rect, color: Rgba) -> Option<Dot> {
    if c.glow_intensity == 0 {
        None
    } else {
        let side = min_int(rect.max.x - rect.min.x, rect.max.y - rect.min.y);
        let max_size = side * 3500 / ONE as int;
        let length = root_length(rect, spec_fractal_frame(c, a).zoom as int);
        Some(
            Dot {
                center: rect_center(rect),
                radius: min_int(length * (ONE + a.smooth_bass) / (2 * ONE), max_size * 6000 / ONE as int) as u64,
                color: Rgba {
                    r: color.r,
                    g: color.g,
                    b: color.b,
                    a: min_int(c.glow_intensity * a.smooth_volume * 100 / (ONE * ONE), 255) as u8,
                },
            },
        )
    }
}

pub fn glow(c: &VisualizerConfig, a: &AudioAnalysis, rect: Rect, color: Rgba) -> (r: Option<Dot>)
    requires
        c.fractal_ok(),
        c.glow_intensity <= PARAM_LIMIT,
        a.in_unit(),
        rect_ok(rect),
    ensures
        r == spec_glow(*c, *a, rect, color),
{
    if c.glow_intensity == 0 {
        return None;
    }
    let f = fractal_frame(c, a);
    let w = (rect.max.x - rect.min.x) as u64;
    let h = (rect.max.y - rect.min.y) as u64;
    let side = if w < h { w } else { h };
    let max_size = side * 3500 / ONE;
    assert(max_size * f.zoom <= 0x200_0000_0000 * (2 * PARAM_LIMIT)) by (nonlinear_arith)
        requires max_size <= side, side <= 0x200_0000_0000u64, f.zoom <= 2 * PARAM_LIMIT;
    let length = ((max_size as u128) * (f.zoom as u128) / (ONE as u128)) as u64;
    assert(length <= 0x200_0000_0000 * (2 * PARAM_LIMIT) / (ONE as int)) by (nonlinear_arith)
        requires max_size * f.zoom <= 0x200_0000_0000 * (2 * PARAM_LIMIT), length == max_size * f.zoom / (ONE as int);
    let gain: u64 = ONE + a.smooth_bass;
    assert((length as int) * (gain as int) <= 0xffff_ffff_ffff_ffff * 20000) by (nonlinear_arith)
        requires gain <= 2 * ONE, length <= 0xffff_ffff_ffff_ffffu64;
    let r1w: u128 = (length as u128) * (gain as u128) / (2 * ONE as u128);
    assert(r1w <= length) by (nonlinear_arith)
        requires r1w as int == (length as int) * (gain as int) / (2 * ONE as int), gain <= 2 * ONE;
    let r1 = r1w as u64;
    let r2 = max_size * 6000 / ONE;
    assert(c.glow_intensity * a.smooth_volume * 100 <= PARAM_LIMIT * ONE * 100) by (nonlinear_arith)
        requires c.glow_intensity <= PARAM_LIMIT, a.smooth_volume <= ONE;
    let alpha = c.glow_intensity * a.smooth_volume * 100 / (ONE * ONE);
    Some(Dot {
        center: Point { x: rect.min.x + (w / 2) as i64, y: rect.min.y + (h / 2) as i64 },
        radius: if r1 < r2 { r1 } else { r2 },
        color: Rgba { r: color.r, g: color.g, b: color.b, a: if alpha < 255 { alpha as u8 } else { 255 } },
    })
}

} // verus!
